//! Storage-layer value checks, quota validation and retry bookkeeping.

use vstd::prelude::*;
use crate::text::{decimal, is_blank, is_blank_str, push_decimal, push_signed_decimal, signed_decimal};

verus! {

/// Errors of the storage layer.
#[derive(Debug, Clone, PartialEq, Eq)]
pub enum StorageError {
    /// A value failed validation.
    Validation(String),
    /// The database reported an error.
    Database(String),
}

impl StorageError {
    /// A validation error with the given message.
    pub fn validation(message: String) -> (r: Self)
        ensures
            r == StorageError::Validation(message),
    {
        StorageError::Validation(message)
    }

    /// The displayed text of the error.
    pub fn message(&self) -> (r: String)
        ensures
            r@ == match *self {
                StorageError::Validation(m) => "Validation error: "@ + m@,
                StorageError::Database(m) => "Database error: "@ + m@,
            },
    {
        match self {
            StorageError::Validation(m) => {
                let mut r = String::from_str("Validation error: ");
                r.append(m.as_str());
                r
            },
            StorageError::Database(m) => {
                let mut r = String::from_str("Database error: ");
                r.append(m.as_str());
                r
            },
        }
    }
}

/// The text `"<field> must be positive, got <value>"`.
pub open spec fn not_positive_text(field: Seq<char>, value: int) -> Seq<char> {
    field + " must be positive, got "@ + signed_decimal(value)
}

fn not_positive_message(field: &str, value: i64) -> (r: String)
    ensures
        r@ == not_positive_text(field@, value as int),
{
    let mut r = String::from_str(field);
    r.append(" must be positive, got ");
    push_signed_decimal(&mut r, value);
    r
}

/// Accept a strictly positive value; reject others with a validation error.
pub fn validate_positive(value: i64, field_name: &str) -> (r: Result<i64, StorageError>)
    ensures
        value > 0 ==> r == Ok::<i64, StorageError>(value),
        value <= 0 ==> (r matches Err(StorageError::Validation(m)) && m@ == not_positive_text(field_name@, value as int)),
{
    if value <= 0 {
        return Err(StorageError::validation(not_positive_message(field_name, value)));
    }
    Ok(value)
}

/// Accept an absent value or a strictly positive one.
pub fn validate_optional_positive(value: Option<i64>, field_name: &str) -> (r: Result<Option<i64>, StorageError>)
    ensures
        match value {
            None => r == Ok::<Option<i64>, StorageError>(None),
            Some(v) => if v > 0 {
                r == Ok::<Option<i64>, StorageError>(Some(v))
            } else {
                (r matches Err(StorageError::Validation(m)) && m@ == not_positive_text(field_name@, v as int))
            },
        },
{
    if let Some(v) = value {
        validate_positive(v, field_name)?;
    }
    Ok(value)
}

/// Reject a text that is empty once trimmed.
pub fn validate_non_empty_string(value: &str, field_name: &str) -> (r: Result<(), StorageError>)
    ensures
        !is_blank(value@) ==> r is Ok,
        is_blank(value@) ==> (r matches Err(StorageError::Validation(m)) && m@ == field_name@ + " cannot be empty"@),
{
    if is_blank_str(value) {
        let mut m = String::from_str(field_name);
        m.append(" cannot be empty");
        return Err(StorageError::validation(m));
    }
    Ok(())
}

/// Reject a collection with more than `max_size` items.
pub fn validate_collection_size<T>(collection: &[T], max_size: usize, collection_name: &str) -> (r: Result<(), StorageError>)
    ensures
        collection@.len() <= max_size ==> r is Ok,
        collection@.len() > max_size ==> (r matches Err(StorageError::Validation(m)) && m@ == collection_name@
            + " has "@ + decimal(collection@.len()) + " items, which exceeds the maximum of "@ + decimal(
            max_size as nat,
        )),
{
    if collection.len() > max_size {
        let mut m = String::from_str(collection_name);
        m.append(" has ");
        push_decimal(&mut m, collection.len() as u64);
        m.append(" items, which exceeds the maximum of ");
        push_decimal(&mut m, max_size as u64);
        return Err(StorageError::validation(m));
    }
    Ok(())
}

/// Texts joined with `"; "`.
pub open spec fn join_semicolon(parts: Seq<Seq<char>>) -> Seq<char>
    decreases parts.len(),
{
    if parts.len() == 0 {
        Seq::empty()
    } else if parts.len() == 1 {
        parts[0]
    } else {
        join_semicolon(parts.drop_last()) + "; "@ + parts.last()
    }
}

/// Collects the problems of several quota limits and reports them together.
pub struct QuotaLimitValidator {
    pub errors: Vec<String>,
}

impl QuotaLimitValidator {
    /// The problems found so far, as texts.
    pub open spec fn problems(&self) -> Seq<Seq<char>> {
        self.errors@.map_values(|s: String| s@)
    }

    /// No problem found yet.
    pub fn new() -> (r: Self)
        ensures
            r.problems() == Seq::<Seq<char>>::empty(),
    {
        let r = QuotaLimitValidator { errors: Vec::new() };
        assert(r.problems() =~= Seq::<Seq<char>>::empty());
        r
    }

    /// Note a problem when a present 32-bit limit is not positive.
    pub fn validate_limit(self, value: Option<i32>, name: &str) -> (r: Self)
        ensures
            r.problems() == match value {
                Some(l) => if l <= 0 {
                    self.problems().push(not_positive_text(name@, l as int))
                } else {
                    self.problems()
                },
                None => self.problems(),
            },
    {
        let mut s = self;
        if let Some(limit) = value {
            if limit <= 0 {
                let ghost before = s.problems();
                s.errors.push(not_positive_message(name, limit as i64));
                assert(s.problems() =~= before.push(not_positive_text(name@, limit as int)));
            }
        }
        s
    }

    /// Note a problem when a present 64-bit limit is not positive.
    pub fn validate_limit_i64(self, value: Option<i64>, name: &str) -> (r: Self)
        ensures
            r.problems() == match value {
                Some(l) => if l <= 0 {
                    self.problems().push(not_positive_text(name@, l as int))
                } else {
                    self.problems()
                },
                None => self.problems(),
            },
    {
        let mut s = self;
        if let Some(limit) = value {
            if limit <= 0 {
                let ghost before = s.problems();
                s.errors.push(not_positive_message(name, limit));
                assert(s.problems() =~= before.push(not_positive_text(name@, limit as int)));
            }
        }
        s
    }

    /// `Ok` when no problem was noted; otherwise one validation error listing them all.
    pub fn build(self) -> (r: Result<(), StorageError>)
        ensures
            self.problems().len() == 0 ==> r is Ok,
            self.problems().len() > 0 ==> (r matches Err(StorageError::Validation(m)) && m@ == join_semicolon(
                self.problems(),
            )),
    {
        if self.errors.len() == 0 {
            return Ok(());
        }
        let mut m = String::new();
        let mut i: usize = 0;
        proof {
            reveal_strlit("; ");
            assert(self.problems().take(0) =~= Seq::<Seq<char>>::empty());
        }
        while i < self.errors.len()
            invariant
                i <= self.errors@.len(),
                m@ == join_semicolon(self.problems().take(i as int)),
            decreases self.errors.len() - i,
        {
            proof {
                assert(self.problems().take(i + 1).drop_last() =~= self.problems().take(i as int));
                if i == 0 {
                    assert(self.problems().take(1) =~= seq![self.errors@[0]@]);
                }
            }
            if i > 0 {
                m.append("; ");
            }
            m.append(self.errors[i].as_str());
            i = i + 1;
        }
        proof {
            assert(self.problems().take(self.errors@.len() as int) =~= self.problems());
        }
        Err(StorageError::validation(m))
    }
}

/// Counters of operations run with retries.
#[derive(Debug, Clone, Copy, PartialEq, Eq)]
pub struct RetryStats {
    pub total_operations: u64,
    pub successful_operations: u64,
    pub failed_operations: u64,
    pub total_retries: u64,
}

impl RetryStats {
    /// All counters zero.
    pub fn new() -> (r: Self)
        ensures
            r == (RetryStats { total_operations: 0, successful_operations: 0, failed_operations: 0, total_retries: 0 }),
    {
        RetryStats { total_operations: 0, successful_operations: 0, failed_operations: 0, total_retries: 0 }
    }
}

/// What to do after a failed attempt of an operation retried on transient errors.
#[derive(Debug, Clone, Copy, PartialEq, Eq)]
pub enum TransientRetryStep {
    /// Give up and return the error.
    GiveUp,
    /// Wait for the backoff and try again.
    RetryAfterBackoff,
}

/// After failed attempt number `attempt` (from 1): give up once the attempts are used
/// up or when the error is not transient; otherwise retry.
pub fn transient_retry_step(attempt: u32, max_attempts: u32, retryable: bool) -> (r: TransientRetryStep)
    ensures
        r == (if attempt >= max_attempts || !retryable {
            TransientRetryStep::GiveUp
        } else {
            TransientRetryStep::RetryAfterBackoff
        }),
{
    if attempt >= max_attempts {
        TransientRetryStep::GiveUp
    } else if !retryable {
        TransientRetryStep::GiveUp
    } else {
        TransientRetryStep::RetryAfterBackoff
    }
}

/// A stored workflow: its definition and tags as JSON text, times as RFC 3339 text.
#[derive(Debug, Clone, PartialEq, Eq)]
pub struct WorkflowRow {
    pub id: String,
    pub name: String,
    pub description: Option<String>,
    pub created_at: String,
    pub updated_at: String,
    pub version: i32,
    pub definition: String,
    pub tags: Option<String>,
}

/// A stored execution, its context, node results and variables as JSON text.
#[derive(Debug, Clone, PartialEq, Eq)]
pub struct ExecutionRow {
    pub id: String,
    pub workflow_id: String,
    pub started_at: Option<String>,
    pub completed_at: Option<String>,
    pub state: String,
    pub context: String,
    pub node_results: String,
    pub variables: String,
    pub error_message: Option<String>,
}

/// A stored user.
#[derive(Debug, Clone, PartialEq, Eq)]
pub struct UserRow {
    pub id: String,
    pub username: String,
    pub email: String,
    pub password_hash: String,
    pub full_name: Option<String>,
    pub created_at: String,
    pub updated_at: String,
    pub last_login: Option<String>,
    pub is_active: bool,
    pub is_verified: bool,
}

/// A role granted to a user.
#[derive(Debug, Clone, PartialEq, Eq)]
pub struct UserRoleRow {
    pub user_id: String,
    pub role: String,
    pub granted_at: String,
}

/// A permission granted to a user.
#[derive(Debug, Clone, PartialEq, Eq)]
pub struct UserPermissionRow {
    pub user_id: String,
    pub permission: String,
    pub granted_at: String,
}

} // verus!
