//! The stages of a tick, and the events that systems raise for each other.

use vstd::prelude::*;

verus! {

/// The stages that the systems of the application run in, in this order.
#[derive(Hash, PartialEq, Eq, Clone, Copy, Debug)]
pub enum Stages {
    PreSetup,
    Setup,
    PostSetup,
    First,
    PreUpdate,
    Update,
    PostUpdate,
    PreRender,
    Render,
    PostRender,
    Last,
}

/// Something that one system raises and others react to in the next tick.
pub trait Event {

}

/// Asks for the images of a directory to be loaded.
#[derive(Debug)]
pub struct LoadFolderEvent {
    pub path: String,
}

impl Event for LoadFolderEvent {

}

} // verus!
