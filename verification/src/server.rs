//! Server-side configuration and error reporting: RFC 7807 problem details,
//! application errors, message sanitising, logging and server configuration.

use vstd::prelude::*;
use crate::text::{contains_seq, decimal, push_decimal, str_contains};

verus! {

/// An RFC 7807 problem description.
#[derive(Debug, Clone, PartialEq, Eq)]
pub struct ProblemDetails {
    /// Problem type URI.
    pub problem_type: String,
    /// Short summary.
    pub title: String,
    /// HTTP status code.
    pub status: u16,
    /// Explanation of this occurrence.
    pub detail: Option<String>,
    /// URI of this occurrence.
    pub instance: Option<String>,
    /// Extension members, as JSON object text.
    pub extensions: Option<String>,
}

/// The problem type URI of a status code.
pub open spec fn status_type_uri(status: u16) -> Seq<char> {
    "https://httpstatuses.com/"@ + decimal(status as nat)
}

impl ProblemDetails {
    /// A problem with the given status and title, typed by the status page.
    pub fn new(status: u16, title: &str) -> (r: Self)
        ensures
            r.problem_type@ == status_type_uri(status),
            r.title@ == title@,
            r.status == status,
            r.detail is None,
            r.instance is None,
            r.extensions is None,
    {
        let mut t = String::from_str("https://httpstatuses.com/");
        push_decimal(&mut t, status as u64);
        ProblemDetails {
            problem_type: t,
            title: String::from_str(title),
            status,
            detail: None,
            instance: None,
            extensions: None,
        }
    }

    /// Set the detail.
    pub fn with_detail(self, detail: String) -> (r: Self)
        ensures
            r == (ProblemDetails { detail: Some(detail), ..self }),
    {
        ProblemDetails { detail: Some(detail), ..self }
    }

    /// Set the instance.
    pub fn with_instance(self, instance: String) -> (r: Self)
        ensures
            r == (ProblemDetails { instance: Some(instance), ..self }),
    {
        ProblemDetails { instance: Some(instance), ..self }
    }

    /// Set the extension members.
    pub fn with_extensions(self, extensions: String) -> (r: Self)
        ensures
            r == (ProblemDetails { extensions: Some(extensions), ..self }),
    {
        ProblemDetails { extensions: Some(extensions), ..self }
    }

    /// Set the problem type.
    pub fn with_type(self, problem_type: String) -> (r: Self)
        ensures
            r == (ProblemDetails { problem_type, ..self }),
    {
        ProblemDetails { problem_type, ..self }
    }

    /// 400 Bad Request with the given detail.
    pub fn bad_request(detail: String) -> (r: Self)
        ensures
            r.status == 400 && r.title@ == "Bad Request"@ && r.detail == Some(detail),
            r.problem_type@ == status_type_uri(400),
            r.instance is None && r.extensions is None,
    {
        Self::new(400, "Bad Request").with_detail(detail)
    }

    /// 401 Unauthorized with the given detail.
    pub fn unauthorized(detail: String) -> (r: Self)
        ensures
            r.status == 401 && r.title@ == "Unauthorized"@ && r.detail == Some(detail),
            r.problem_type@ == status_type_uri(401),
            r.instance is None && r.extensions is None,
    {
        Self::new(401, "Unauthorized").with_detail(detail)
    }

    /// 403 Forbidden with the given detail.
    pub fn forbidden(detail: String) -> (r: Self)
        ensures
            r.status == 403 && r.title@ == "Forbidden"@ && r.detail == Some(detail),
            r.problem_type@ == status_type_uri(403),
            r.instance is None && r.extensions is None,
    {
        Self::new(403, "Forbidden").with_detail(detail)
    }

    /// 404 Not Found with the given detail.
    pub fn not_found(detail: String) -> (r: Self)
        ensures
            r.status == 404 && r.title@ == "Not Found"@ && r.detail == Some(detail),
            r.problem_type@ == status_type_uri(404),
            r.instance is None && r.extensions is None,
    {
        Self::new(404, "Not Found").with_detail(detail)
    }

    /// 429 Too Many Requests, with the retry delay as the `retry_after` extension.
    pub fn rate_limited(retry_after: u64) -> (r: Self)
        ensures
            r.status == 429 && r.title@ == "Too Many Requests"@,
            r.detail matches Some(d) && d@ == "Rate limit exceeded"@,
            r.problem_type@ == status_type_uri(429),
            r.instance is None,
            r.extensions matches Some(x) && x@ == "{\"retry_after\":"@ + decimal(retry_after as nat) + "}"@,
    {
        let mut ext = String::from_str("{\"retry_after\":");
        push_decimal(&mut ext, retry_after);
        ext.append("}");
        Self::new(429, "Too Many Requests").with_detail(String::from_str("Rate limit exceeded")).with_extensions(ext)
    }

    /// 500 Internal Server Error with the given detail.
    pub fn internal_error(detail: String) -> (r: Self)
        ensures
            r.status == 500 && r.title@ == "Internal Server Error"@ && r.detail == Some(detail),
            r.problem_type@ == status_type_uri(500),
            r.instance is None && r.extensions is None,
    {
        Self::new(500, "Internal Server Error").with_detail(detail)
    }

    /// 503 Service Unavailable with the given detail.
    pub fn service_unavailable(detail: String) -> (r: Self)
        ensures
            r.status == 503 && r.title@ == "Service Unavailable"@ && r.detail == Some(detail),
            r.problem_type@ == status_type_uri(503),
            r.instance is None && r.extensions is None,
    {
        Self::new(503, "Service Unavailable").with_detail(detail)
    }

    /// 413 Payload Too Large, naming the size limit.
    pub fn payload_too_large(max_size: usize) -> (r: Self)
        ensures
            r.status == 413 && r.title@ == "Payload Too Large"@,
            r.detail matches Some(d) && d@ == "Request body exceeds maximum size of "@ + decimal(max_size as nat)
                + " bytes"@,
            r.problem_type@ == status_type_uri(413),
            r.instance is None && r.extensions is None,
    {
        let mut d = String::from_str("Request body exceeds maximum size of ");
        push_decimal(&mut d, max_size as u64);
        d.append(" bytes");
        Self::new(413, "Payload Too Large").with_detail(d)
    }

    /// The HTTP status to respond with: the status when it is a valid code (100 to 999),
    /// otherwise 500.
    pub fn status_code(&self) -> (r: u16)
        ensures
            r == (if 100 <= self.status <= 999 { self.status } else { 500u16 }),
    {
        if 100 <= self.status && self.status <= 999 {
            self.status
        } else {
            500
        }
    }
}

/// Application errors.
#[derive(Debug, Clone, PartialEq, Eq)]
pub enum AppError {
    Validation(String),
    Authentication(String),
    Authorization(String),
    NotFound(String),
    RateLimit { retry_after: u64 },
    Internal(String),
    Database(String),
    ExternalService(String),
}

impl AppError {
    /// The displayed text of the error.
    pub fn message(&self) -> (r: String)
        ensures
            r@ == match *self {
                AppError::Validation(m) => "Validation error: "@ + m@,
                AppError::Authentication(m) => "Authentication error: "@ + m@,
                AppError::Authorization(m) => "Authorization error: "@ + m@,
                AppError::NotFound(m) => "Not found: "@ + m@,
                AppError::RateLimit { .. } => "Rate limit exceeded"@,
                AppError::Internal(m) => "Internal error: "@ + m@,
                AppError::Database(m) => "Database error: "@ + m@,
                AppError::ExternalService(m) => "External service error: "@ + m@,
            },
    {
        let (prefix, rest): (&str, Option<&String>) = match self {
            AppError::Validation(m) => ("Validation error: ", Some(m)),
            AppError::Authentication(m) => ("Authentication error: ", Some(m)),
            AppError::Authorization(m) => ("Authorization error: ", Some(m)),
            AppError::NotFound(m) => ("Not found: ", Some(m)),
            AppError::RateLimit { .. } => ("Rate limit exceeded", None),
            AppError::Internal(m) => ("Internal error: ", Some(m)),
            AppError::Database(m) => ("Database error: ", Some(m)),
            AppError::ExternalService(m) => ("External service error: ", Some(m)),
        };
        let mut r = String::from_str(prefix);
        if let Some(t) = rest {
            r.append(t.as_str());
        }
        r
    }

    /// The problem details the error is answered with. Database messages are shown only
    /// in a debug build; otherwise a generic text replaces them.
    pub fn to_problem_details(self, debug_build: bool) -> (r: ProblemDetails)
        ensures
            match self {
                AppError::Validation(m) => r.status == 400 && r.detail == Some(m),
                AppError::Authentication(m) => r.status == 401 && r.detail == Some(m),
                AppError::Authorization(m) => r.status == 403 && r.detail == Some(m),
                AppError::NotFound(m) => r.status == 404 && r.detail == Some(m),
                AppError::RateLimit { retry_after } => r.status == 429 && (r.extensions matches Some(x)
                    && x@ == "{\"retry_after\":"@ + decimal(retry_after as nat) + "}"@),
                AppError::Internal(m) => r.status == 500 && r.detail == Some(m),
                AppError::Database(m) => r.status == 500 && (if debug_build {
                    r.detail == Some(m)
                } else {
                    r.detail matches Some(d) && d@ == "A database error occurred"@
                }),
                AppError::ExternalService(m) => r.status == 503 && r.detail == Some(m),
            },
    {
        match self {
            AppError::Validation(m) => ProblemDetails::bad_request(m),
            AppError::Authentication(m) => ProblemDetails::unauthorized(m),
            AppError::Authorization(m) => ProblemDetails::forbidden(m),
            AppError::NotFound(m) => ProblemDetails::not_found(m),
            AppError::RateLimit { retry_after } => ProblemDetails::rate_limited(retry_after),
            AppError::Internal(m) => ProblemDetails::internal_error(m),
            AppError::Database(m) => {
                if debug_build {
                    ProblemDetails::internal_error(m)
                } else {
                    ProblemDetails::internal_error(String::from_str("A database error occurred"))
                }
            },
            AppError::ExternalService(m) => ProblemDetails::service_unavailable(m),
        }
    }
}

/// Whether a message mentions internals that production responses hide.
pub open spec fn mentions_internals(e: Seq<char>) -> bool {
    contains_seq(e, "database"@) || contains_seq(e, "SQL"@) || contains_seq(e, "connection"@)
        || contains_seq(e, "panic"@)
}

/// In production, replace messages that mention the database, SQL, connections or
/// panics with a generic text; otherwise keep the message.
pub fn sanitize_error_message(error: &str, is_production: bool) -> (r: String)
    ensures
        r@ == (if is_production && mentions_internals(error@) {
            "An internal error occurred"@
        } else {
            error@
        }),
{
    if is_production {
        if str_contains(error, "database") || str_contains(error, "SQL") || str_contains(error, "connection")
            || str_contains(error, "panic") {
            return String::from_str("An internal error occurred");
        }
    }
    String::from_str(error)
}

/// Logging configuration.
#[derive(Debug, Clone, PartialEq, Eq)]
pub struct TracingConfig {
    pub service_name: String,
    pub service_version: String,
    pub log_level: String,
    pub json_format: bool,
}

impl TracingConfig {
    /// The defaults: service `server`, version `0.1.0`, level `info`, plain text.
    pub fn default_config() -> (r: Self)
        ensures
            r.service_name@ == "server"@,
            r.service_version@ == "0.1.0"@,
            r.log_level@ == "info"@,
            !r.json_format,
    {
        TracingConfig {
            service_name: String::from_str("server"),
            service_version: String::from_str("0.1.0"),
            log_level: String::from_str("info"),
            json_format: false,
        }
    }

    /// The defaults with the given service name.
    pub fn new(service_name: &str) -> (r: Self)
        ensures
            r.service_name@ == service_name@,
            r.service_version@ == "0.1.0"@,
            r.log_level@ == "info"@,
            !r.json_format,
    {
        TracingConfig { service_name: String::from_str(service_name), ..Self::default_config() }
    }

    /// Set the log level.
    pub fn with_log_level(self, level: &str) -> (r: Self)
        ensures
            r.log_level@ == level@,
            r.service_name == self.service_name,
            r.service_version == self.service_version,
            r.json_format == self.json_format,
    {
        TracingConfig { log_level: String::from_str(level), ..self }
    }

    /// Enable or disable JSON output.
    pub fn with_json_format(self, enabled: bool) -> (r: Self)
        ensures
            r == (TracingConfig { json_format: enabled, ..self }),
    {
        TracingConfig { json_format: enabled, ..self }
    }

    /// The configuration for development: `server-dev`, level `debug`, plain text.
    pub fn development() -> (r: Self)
        ensures
            r.service_name@ == "server-dev"@,
            r.log_level@ == "debug"@,
            !r.json_format,
    {
        Self::new("server-dev").with_log_level("debug").with_json_format(false)
    }

    /// The configuration for production: `server`, level `info`, JSON.
    pub fn production() -> (r: Self)
        ensures
            r.service_name@ == "server"@,
            r.log_level@ == "info"@,
            r.json_format,
    {
        Self::new("server").with_log_level("info").with_json_format(true)
    }
}

/// Configuration of the HTTP server.
#[derive(Debug, Clone, PartialEq, Eq)]
pub struct ServerConfig {
    /// Listen address, `host:port`.
    pub address: String,
    /// Time allowed for a graceful shutdown, in seconds.
    pub graceful_shutdown_timeout: u64,
    /// Whether requests are logged.
    pub request_logging: bool,
}

impl ServerConfig {
    /// A configuration for the address: 30 s shutdown timeout, request logging on.
    pub fn new(address: String) -> (r: Self)
        ensures
            r == (ServerConfig { address, graceful_shutdown_timeout: 30, request_logging: true }),
    {
        ServerConfig { address, graceful_shutdown_timeout: 30, request_logging: true }
    }

    /// The development configuration on `127.0.0.1:3000`.
    pub fn development() -> (r: Self)
        ensures
            r.address@ == "127.0.0.1:3000"@,
            r.graceful_shutdown_timeout == 30,
            r.request_logging,
    {
        Self::new(String::from_str("127.0.0.1:3000"))
    }

    /// Set the address.
    pub fn with_address(self, address: String) -> (r: Self)
        ensures
            r == (ServerConfig { address, ..self }),
    {
        ServerConfig { address, ..self }
    }

    /// Set the shutdown timeout.
    pub fn with_shutdown_timeout(self, seconds: u64) -> (r: Self)
        ensures
            r == (ServerConfig { graceful_shutdown_timeout: seconds, ..self }),
    {
        ServerConfig { graceful_shutdown_timeout: seconds, ..self }
    }
}

/// Server errors.
#[derive(Debug, Clone, PartialEq, Eq)]
pub enum ServerError {
    BindError(String),
    ServeError(String),
    ConfigError(String),
}

impl ServerError {
    /// The displayed text of the error.
    pub fn message(&self) -> (r: String)
        ensures
            r@ == match *self {
                ServerError::BindError(m) => "Failed to bind to address: "@ + m@,
                ServerError::ServeError(m) => "Server error: "@ + m@,
                ServerError::ConfigError(m) => "Configuration error: "@ + m@,
            },
    {
        let (prefix, m): (&str, &String) = match self {
            ServerError::BindError(m) => ("Failed to bind to address: ", m),
            ServerError::ServeError(m) => ("Server error: ", m),
            ServerError::ConfigError(m) => ("Configuration error: ", m),
        };
        let mut r = String::from_str(prefix);
        r.append(m.as_str());
        r
    }
}

/// Held while logging is set up; dropping or shutting it down ends nothing more.
#[derive(Debug, Clone, Copy, PartialEq, Eq)]
pub struct TracingGuard;

impl TracingGuard {
    /// Shut logging down (the subscriber needs no explicit shutdown).
    pub fn shutdown(self) {
    }
}

impl Default for TracingConfig {
    fn default() -> (r: Self)
        ensures
            r.service_name@ == "server"@,
            r.service_version@ == "0.1.0"@,
            r.log_level@ == "info"@,
            !r.json_format,
    {
        TracingConfig::default_config()
    }
}

} // verus!
