//! The error taxonomy shared with the surrounding service layer.
//!
//! The mapping layer itself never fails: malformed input degrades to a
//! default and a failed entity gate yields an absent entity.  The variants
//! here carry the collaborator-boundary failures the service layer reports,
//! plus the one shape error the response readers can themselves surface.

use vstd::prelude::*;
use vstd::string::StringExecFns;

verus! {

/// The error taxonomy of the service layer, each variant carrying its
/// detail text.
#[derive(Debug, Clone, PartialEq)]
pub enum NotionMcpError {
    NotionApi(String),
    Transport(String),
    Server(String),
    InvalidParams(String),
    MethodNotFound(String),
    ResourceNotFound(String),
    Authentication(String),
    JsonParse(String),
    Unknown(String),
}

/// The message prefix of each variant.
pub open spec fn spec_prefix(e: NotionMcpError) -> Seq<char> {
    match e {
        NotionMcpError::NotionApi(_) => "Error en la API de Notion: "@,
        NotionMcpError::Transport(_) => "Error de transporte: "@,
        NotionMcpError::Server(_) => "Error interno del servidor: "@,
        NotionMcpError::InvalidParams(_) => "Parametros invalidos: "@,
        NotionMcpError::MethodNotFound(_) => "Metodo no encontrado: "@,
        NotionMcpError::ResourceNotFound(_) => "Recurso no encontrado: "@,
        NotionMcpError::Authentication(_) => "Error de autenticacion: "@,
        NotionMcpError::JsonParse(_) => "Error al analizar JSON: "@,
        NotionMcpError::Unknown(_) => "Error desconocido: "@,
    }
}

/// The detail text a variant carries.
pub open spec fn spec_detail(e: NotionMcpError) -> Seq<char> {
    match e {
        NotionMcpError::NotionApi(s) => s@,
        NotionMcpError::Transport(s) => s@,
        NotionMcpError::Server(s) => s@,
        NotionMcpError::InvalidParams(s) => s@,
        NotionMcpError::MethodNotFound(s) => s@,
        NotionMcpError::ResourceNotFound(s) => s@,
        NotionMcpError::Authentication(s) => s@,
        NotionMcpError::JsonParse(s) => s@,
        NotionMcpError::Unknown(s) => s@,
    }
}

/// The full display message of an error.
pub open spec fn spec_message(e: NotionMcpError) -> Seq<char> {
    spec_prefix(e) + spec_detail(e)
}

impl NotionMcpError {
    /// The display message: the variant's prefix followed by its detail.
    pub fn message(&self) -> (r: String)
        ensures
            r@ == spec_message(*self),
    {
        match self {
            NotionMcpError::NotionApi(s) => String::from_str("Error en la API de Notion: ")
                .concat(s.as_str()),
            NotionMcpError::Transport(s) => String::from_str("Error de transporte: ")
                .concat(s.as_str()),
            NotionMcpError::Server(s) => String::from_str("Error interno del servidor: ")
                .concat(s.as_str()),
            NotionMcpError::InvalidParams(s) => String::from_str("Parametros invalidos: ")
                .concat(s.as_str()),
            NotionMcpError::MethodNotFound(s) => String::from_str("Metodo no encontrado: ")
                .concat(s.as_str()),
            NotionMcpError::ResourceNotFound(s) => String::from_str("Recurso no encontrado: ")
                .concat(s.as_str()),
            NotionMcpError::Authentication(s) => String::from_str("Error de autenticacion: ")
                .concat(s.as_str()),
            NotionMcpError::JsonParse(s) => String::from_str("Error al analizar JSON: ")
                .concat(s.as_str()),
            NotionMcpError::Unknown(s) => String::from_str("Error desconocido: ")
                .concat(s.as_str()),
        }
    }
}

} // verus!
