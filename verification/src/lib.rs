//! Frame orchestration core of a real-time renderer: command processing,
//! scene bookkeeping, visibility and draw ordering, the render graph,
//! pooled buffer allocation and command-buffer lifetime tracking, together
//! with the readers for the game's file formats.
//!
//! Everything here decides and computes on plain values. Threads,
//! channels, files, the device and float arithmetic are the caller's part:
//! the caller reports what happened, and is told what to do next.

pub mod align;
pub mod backend;
pub mod batch_sort;
pub mod bsp_level;
pub mod buffer;
pub mod command;
pub mod desktop_renderer;
pub mod drawable;
pub mod engine;
pub mod fps_camera;
pub mod frame;
pub mod job;
pub mod lifetime_tracker;
pub mod lump_data;
pub mod package;
pub mod platform;
pub mod presenter;
pub mod queue;
pub mod read_util;
pub mod render_graph;
pub mod renderer;
pub mod renderer_command;
pub mod renderer_internal;
pub mod renderer_scene;
pub mod scene;
pub mod skin_replacement;
pub mod texture;
pub mod transfer;
pub mod visibility;
pub mod vtf_loader;
