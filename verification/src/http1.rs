//! The HTTP/1.x exchange as it goes over a raw byte stream: the request as
//! the bytes to write, and the response as it is read back out of whatever
//! pieces the stream delivers.

pub mod decoder;
pub mod encode;
pub mod exchange;
pub mod head;
pub mod laws;
pub mod text;
