//! Identity relocation and message framing for a peer-to-peer routing node.
pub mod codec;
pub mod error;
pub mod messages;
pub mod name_type;
pub mod types;
pub mod utils;

pub use codec::{decoded_item, CodecError};
pub use error::RoutingError;
pub use messages::put_public_pmid::{PutPublicPmid, PUT_PUBLIC_PMID_TAG};
pub use name_type::{closer_to_target, NameType, NAME_BYTES};
pub use types::PublicPmid;
pub use utils::{calculate_relocated_name, public_key_to_client_name};
