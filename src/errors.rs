use vstd::prelude::*;

verus! {

/// Status code of a request that lacks or carries invalid input.
pub const BAD_REQUEST: u16 = 400;

/// Status code of a request without valid credentials or token.
pub const UNAUTHORIZED: u16 = 401;

/// Status code of a lookup of an unknown identifier.
pub const NOT_FOUND: u16 = 404;

/// Status code of a store, hashing or signing failure.
pub const INTERNAL_SERVER_ERROR: u16 = 500;

/// An error as it reaches the client: a message and an HTTP status code.
#[derive(Debug, Clone)]
pub struct ApiError {
    pub mensaje: String,
    pub codigo_estado: u16,
}

impl ApiError {
    pub fn new(mensaje: String, codigo_estado: u16) -> (r: Self)
        ensures
            r.mensaje@ == mensaje@,
            r.codigo_estado == codigo_estado,
    {
        ApiError { mensaje, codigo_estado }
    }

    pub fn internal_server_error(mensaje: String) -> (r: Self)
        ensures
            r.mensaje@ == mensaje@,
            r.codigo_estado == INTERNAL_SERVER_ERROR,
    {
        Self::new(mensaje, INTERNAL_SERVER_ERROR)
    }

    pub fn not_found(mensaje: String) -> (r: Self)
        ensures
            r.mensaje@ == mensaje@,
            r.codigo_estado == NOT_FOUND,
    {
        Self::new(mensaje, NOT_FOUND)
    }

    pub fn bad_request(mensaje: String) -> (r: Self)
        ensures
            r.mensaje@ == mensaje@,
            r.codigo_estado == BAD_REQUEST,
    {
        Self::new(mensaje, BAD_REQUEST)
    }

    pub fn unauthorized(mensaje: String) -> (r: Self)
        ensures
            r.mensaje@ == mensaje@,
            r.codigo_estado == UNAUTHORIZED,
    {
        Self::new(mensaje, UNAUTHORIZED)
    }

    /// The text shown for this error.
    pub fn message(&self) -> (r: String)
        ensures
            r@ == self.mensaje@,
    {
        self.mensaje.clone()
    }
}

} // verus!
