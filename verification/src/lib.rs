//! Verified decision logic of the Weld window manager: identities, queues,
//! state machines, validation rules and pixel layout.
//!
//! Everything here works on plain values. Wayland, GPU and ECS objects stay
//! with the application, which hands their identities in as integers and acts
//! on the plans that come back.

pub mod arguments;
pub mod bitrate_budget;
pub mod compositor;
pub mod cursor;
pub mod debug;
pub mod direct_loop;
pub mod drm;
pub mod images;
pub mod importer;
pub mod layer;
pub mod ledger;
pub mod libinput;
pub mod nested;
pub mod nodes;
pub mod number;
pub mod output;
pub mod overlay;
pub mod page_flip;
pub mod pixels;
pub mod presentation;
pub mod presenter;
pub mod projection;
pub mod raw_input;
pub mod renderer;
pub mod root_commit;
pub mod routing;
pub mod runtime;
pub mod scene;
pub mod screenshot;
pub mod seat;
pub mod shell;
pub mod shm;
pub mod sort;
pub mod surface;
pub mod surface_tree;
mod table;
pub mod text;
pub mod toplevel;
pub mod window;
pub mod window_stack;
