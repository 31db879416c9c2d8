//! Task descriptions: the fields of custom task types, and the enums that select
//! a database driver, a transfer protocol and direction, or an HTTP method.
use vstd::prelude::*;

verus! {

/// A selectable option for a task field (e.g., dropdown value).
#[derive(Debug, Clone)]
pub struct FieldOption {
    pub value: String,
    pub label: String,
}

/// Schema definition for a single field within a task type.
#[derive(Debug, Clone)]
pub struct TaskFieldDefinition {
    pub name: String,
    pub label: String,
    pub field_type: String,
    pub required: Option<bool>,
    pub placeholder: Option<String>,
    pub options: Option<Vec<FieldOption>>,
}

/// Describes a custom task type with its name, description, and required fields.
#[derive(Debug, Clone)]
pub struct TaskTypeDefinition {
    pub name: String,
    pub description: Option<String>,
    pub fields: Vec<TaskFieldDefinition>,
}

/// Supported SQL database drivers.
#[derive(Debug, Clone, Copy, PartialEq, Eq, Structural)]
pub enum SqlDriver {
    Postgres,
    Mysql,
    Sqlite,
}

/// File transfer protocol variant.
#[derive(Debug, Clone, Copy, PartialEq, Eq, Structural)]
pub enum FtpProtocol {
    Ftp,
    Ftps,
    Sftp,
}

/// Direction of a file transfer operation.
#[derive(Debug, Clone, Copy, PartialEq, Eq, Structural)]
pub enum TransferDirection {
    Upload,
    Download,
}

/// HTTP method for HTTP task requests.
#[derive(Debug, Clone, Copy, PartialEq, Eq, Structural)]
pub enum HttpMethod {
    Get,
    Post,
    Put,
    Delete,
}

impl FtpProtocol {
    /// The URL scheme of this protocol.
    pub open spec fn spec_scheme(self) -> Seq<char> {
        match self {
            FtpProtocol::Ftp => "ftp"@,
            FtpProtocol::Ftps => "ftps"@,
            FtpProtocol::Sftp => "sftp"@,
        }
    }

    /// The URL scheme of this protocol.
    pub fn scheme(&self) -> (r: &'static str)
        ensures
            r@ == self.spec_scheme(),
    {
        match self {
            FtpProtocol::Ftp => "ftp",
            FtpProtocol::Ftps => "ftps",
            FtpProtocol::Sftp => "sftp",
        }
    }
}

} // verus!
