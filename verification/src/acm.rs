//! A client of the configuration service: request building and signing, the server list,
//! subscriptions, and the decisions of the long-polling listener.

pub mod digest;
pub mod request;
pub mod subscription;
pub mod listener;

pub use self::request::{
    AcmRequest, HttpMethod, InnerClient, SignedRequest, config_url, lookup_param,
    parse_server_list, sign_text,
};
pub use self::subscription::{AcmClient, SubStream};
pub use self::listener::{
    LINE_SEPARATOR, WORD_SEPARATOR, changed_config_step, changed_keys, content_is_not_exist,
    initial_config_step, probe_update,
};
