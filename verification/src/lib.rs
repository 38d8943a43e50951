//! Verified core of a media-drive server that authorizes requests with
//! signed JSON tokens ("nwt" events): token extraction and decoding, the
//! canonical serialization and id of an event, its signature check, the
//! permission check against the request, and the text that routes return.
pub mod auth;
pub mod digest;
pub mod event;
pub mod hex;
pub mod routes;
pub mod text;

pub use auth::{
    assign_username, authorize_event, check_nwt_permissions, decode_nwt, nwt_from_header,
    validate_nwt, NwtError,
};
pub use digest::{sha256_digest, sha256_string};
pub use event::{Method, NwtContent, NwtEvent};
pub use hex::from_hex;
pub use routes::{
    default_catcher, plan_upload, search, upload_name, Folder, Order, Query, TagLogic, UploadPlan,
};
