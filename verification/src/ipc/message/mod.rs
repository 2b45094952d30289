//! Arguments, requests and responses.

pub mod argument;
pub mod error;
pub mod macros;
pub mod metadata;
pub mod request;
pub mod response;

pub use argument::{
    Argument, ArgumentFlag, ArgumentKind, ArgumentView, TypeDesc, ValueView, INLINED_DATA_ALIGN,
    INLINED_DATA_SIZE,
};
pub use error::MessageError;
pub use request::{Request, RequestIdCounter, RequestView};
pub use response::{Response, ResponseView};
pub use macros::{arg_flag, ArgMut, ArgMutSlice, ArgRef, ArgSlice, ArgValue, IntoArgument};
