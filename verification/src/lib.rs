//! The core of a minimal HTTP/1.1 static-file server.
//!
//! A connection serves one request at a time: the head lines are parsed into
//! a request, only GET is served, the path resolves under the content root
//! (a directory retargets to its index file when implicit index is on), and
//! the response is framed with a `Content-Length` equal to the exact byte
//! count of its body. The connection machine in [`conn`] owns every such
//! decision; the surrounding process performs the I/O it asks for.

pub mod config;
pub mod conn;
pub mod headers;
pub mod readers;
pub mod request;
pub mod response;
pub mod status;
pub mod strutil;
