//! Data types describing containers and images as the container
//! runtime reports them.
//!
//! Listing containers and images is client-library work done by an
//! outer layer; these are the plain values it hands to the rest of the
//! application.

use vstd::prelude::*;

verus! {

/// One published or exposed port of a container.
pub struct PortInfo {
    pub private_port: u16,
    pub public_port: Option<u16>,
    pub port_type: String,
}

/// One container as the runtime lists it.
pub struct ContainerInfo {
    pub id: String,
    pub names: Vec<String>,
    pub image: String,
    pub state: String,
    pub status: String,
    pub ports: Vec<PortInfo>,
    pub created: i64,
}

/// One image as the runtime lists it.
pub struct ImageInfo {
    pub id: String,
    pub repo_tags: Vec<String>,
    pub size: i64,
    pub created: i64,
}

} // verus!
