//! Dynamic values exchanged with interpreted UI components, and the
//! reference-counted instance handles through which they are read and written.
pub mod number;
pub mod graphics;
pub mod value;
pub mod convert;
pub mod enums;
pub mod records;
pub mod component;
pub mod config;

pub use component::{
    CallCallbackError, CallbackOutcome, ComponentDefinition, ComponentInstance, GetPropertyError, InstanceStore,
    SetCallbackError, SetPropertyError, WeakComponentInstance,
};
pub use config::CompilerConfiguration;
pub use convert::NativeValue;
pub use number::Number;
pub use value::{Struct, Value};
