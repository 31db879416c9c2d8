//! Record types shared by the scheduler, the executor and the API.
pub mod agent;
pub mod auth;
pub mod connection;
pub mod event;
pub mod execution;
pub mod job;
pub mod task;

pub use agent::{AgentStatus, AgentType};
pub use auth::ApiKeyRole;
pub use connection::{Connection, ConnectionType};
pub use event::{Event, EventSeverity};
pub use execution::{ExecutionRecord, ExecutionStatus, TriggerSource};
pub use job::{
    CronExpr, EventTriggerConfig, ExtractionRule, JobNotificationConfig, JobStatus, OutputAssertion,
    OutputRules, OutputTrigger,
};
pub use task::{
    FieldOption, FtpProtocol, HttpMethod, SqlDriver, TaskFieldDefinition, TaskTypeDefinition,
    TransferDirection,
};
