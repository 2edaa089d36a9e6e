//! A worker thread's life: it is given its contexts while it is prepared,
//! and then run once.

use vstd::prelude::*;

verus! {

/// What a job finds on the thread that runs it.
pub trait JobThreadContext {

}

/// Where a worker thread stands.
#[allow(non_camel_case_types)]
pub enum JobThreadStatus<C: JobThreadContext> {
    /// The thread is being prepared: these are its contexts, by key.
    PREPARING(Vec<(String, C)>),
    /// The thread runs.
    RUNNING,
    /// The thread was asked to run while it ran.
    UNKNWON,
}

/// A worker thread.
pub struct JobThread<C: JobThreadContext> {
    status: JobThreadStatus<C>,
}

/// Whether one of `contexts` has the key `key`.
pub open spec fn has_key<C>(contexts: Seq<(String, C)>, key: Seq<char>) -> bool {
    exists|i: int| 0 <= i < contexts.len() && (#[trigger] contexts[i]).0@ == key
}

/// Whether no two of `contexts` have one key.
pub open spec fn keys_distinct<C>(contexts: Seq<(String, C)>) -> bool {
    forall|a: int, b: int|
        0 <= a < b < contexts.len() ==> (#[trigger] contexts[a]).0@ != (#[trigger] contexts[b]).0@
}

/// A context that is added under a key that no context has keeps the keys
/// apart.
pub proof fn lemma_added_key_is_new<C>(contexts: Seq<(String, C)>, key: String, context: C)
    requires
        keys_distinct(contexts),
        !has_key(contexts, key@),
    ensures
        keys_distinct(contexts.push((key, context))),
{
    let after = contexts.push((key, context));
    assert forall|a: int, b: int| 0 <= a < b < after.len() implies (#[trigger] after[a]).0@ != (
    #[trigger] after[b]).0@ by {
        assert(after[a] == contexts[a]);
        if b < contexts.len() {
            assert(after[b] == contexts[b]);
        }
    }
}

impl<C: JobThreadContext> JobThread<C> {
    /// Whether the thread's contexts, while it is being prepared, have
    /// keys that differ from one another.
    pub open spec fn wf(&self) -> bool {
        self.status() matches JobThreadStatus::PREPARING(contexts) ==> keys_distinct(contexts@)
    }

    /// The thread's status.
    pub closed spec fn status(&self) -> JobThreadStatus<C> {
        self.status
    }

    /// A thread that is being prepared, without contexts.
    pub fn new() -> (thread: Self)
        ensures
            thread.status() matches JobThreadStatus::PREPARING(contexts) && contexts@.len() == 0,
            thread.wf(),
    {
        JobThread { status: JobThreadStatus::PREPARING(Vec::new()) }
    }

    /// Whether the thread is being prepared.
    pub fn is_preparing(&self) -> (preparing: bool)
        ensures
            preparing == (self.status() is PREPARING),
    {
        match self.status {
            JobThreadStatus::PREPARING(_) => true,
            _ => false,
        }
    }

    /// Whether the thread runs.
    pub fn is_running(&self) -> (running: bool)
        ensures
            running == (self.status() is RUNNING),
    {
        match self.status {
            JobThreadStatus::RUNNING => true,
            _ => false,
        }
    }

    /// Sets the thread running and hands out its contexts for the thread's
    /// body. A thread that runs already says so, and is in an unknown
    /// state from then on, in which it must not be asked to run again.
    pub fn run(&mut self) -> (result: Result<Vec<(String, C)>, String>)
        requires
            !(old(self).status() is UNKNWON),
        ensures
            old(self).status() matches JobThreadStatus::PREPARING(contexts) ==> result == Ok::<
                Vec<(String, C)>,
                String,
            >(contexts) && final(self).status() is RUNNING,
            old(self).status() is RUNNING ==> (result matches Err(message) && message@
                == "Thread is running already"@) && final(self).status() is UNKNWON,
    {
        let mut old_status = JobThreadStatus::UNKNWON;
        std::mem::swap(&mut self.status, &mut old_status);
        match old_status {
            JobThreadStatus::RUNNING => Err(already_running()),
            JobThreadStatus::PREPARING(contexts) => {
                self.status = JobThreadStatus::RUNNING;
                Ok(contexts)
            },
            JobThreadStatus::UNKNWON => Err(already_running()),
        }
    }

    /// Gives the thread a context under `key`, unless it has one under that
    /// key already: says which. A thread that is no longer being prepared
    /// takes no context.
    pub fn add_arg(&mut self, key: String, context: C) -> (result: Result<bool, String>)
        ensures
            match old(self).status() {
                JobThreadStatus::PREPARING(contexts) => {
                    &&& result == Ok::<bool, String>(!has_key(contexts@, key@))
                    &&& final(self).status() matches JobThreadStatus::PREPARING(after)
                    &&& after@ == if has_key(contexts@, key@) {
                        contexts@
                    } else {
                        contexts@.push((key, context))
                    }
                },
                _ => (result matches Err(message) && message@ == "Wrong state"@)
                    && final(self).status() == old(self).status(),
            },
            old(self).wf() ==> final(self).wf(),
    {
        let mut status = JobThreadStatus::UNKNWON;
        std::mem::swap(&mut self.status, &mut status);
        match status {
            JobThreadStatus::PREPARING(mut contexts) => {
                let mut i: usize = 0;
                let mut found = false;
                while i < contexts.len() && !found
                    invariant
                        i <= contexts@.len(),
                        !found ==> forall|k: int| 0 <= k < i ==> (#[trigger] contexts@[k]).0@ != key@,
                        found ==> has_key(contexts@, key@),
                    decreases contexts@.len() - i + if found { 0int } else { 1int },
                {
                    if contexts[i].0 == key {
                        found = true;
                    } else {
                        i = i + 1;
                    }
                }
                if !found {
                    proof {
                        if keys_distinct(contexts@) {
                            lemma_added_key_is_new(contexts@, key, context);
                        }
                    }
                    contexts.push((key, context));
                }
                self.status = JobThreadStatus::PREPARING(contexts);
                Ok(!found)
            },
            JobThreadStatus::RUNNING => {
                self.status = JobThreadStatus::RUNNING;
                Err(wrong_state())
            },
            JobThreadStatus::UNKNWON => Err(wrong_state()),
        }
    }
}

/// The words for a thread that runs already.
fn already_running() -> (message: String)
    ensures
        message@ == "Thread is running already"@,
{
    "Thread is running already".to_string()
}

/// The words for a thread that is no longer being prepared.
fn wrong_state() -> (message: String)
    ensures
        message@ == "Wrong state"@,
{
    "Wrong state".to_string()
}

} // verus!
