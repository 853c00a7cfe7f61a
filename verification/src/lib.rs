pub mod decoder;
pub mod encoder;
pub mod value;
pub mod wire;

pub use decoder::decode;
pub use encoder::encode;
pub use value::Value;
pub use value::ValueModel;
