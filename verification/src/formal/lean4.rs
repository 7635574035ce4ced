//! The request, response and verdict types of a Lean4 (Kimina) proof
//! server, and the checks and classification around a verify call.
//!
//! The wire protocol is `POST {base}/verify` with a body
//! `{ lean_code, timeout_ms }`, answered by `{ valid, errors, proof_hash }`.
use vstd::prelude::*;
use crate::text::{chars_of, byte_len, utf8_len, push_str, push_decimal, decimal, string_from};

verus! {

/// The longest proof obligation sent, in bytes.
pub const MAX_LEAN_BYTES: u128 = 65_536;

/// The default time a verify call may take, in milliseconds.
pub const DEFAULT_TIMEOUT_MS: u64 = 5_000;

/// A proof obligation for the server.
#[derive(Debug, Clone)]
pub struct ProofRequest {
    pub lean_code: String,
    pub timeout_ms: u64,
}

/// The server's answer.
#[derive(Debug, Clone, PartialEq)]
pub struct ProofResponse {
    pub valid: bool,
    pub errors: Vec<String>,
    pub proof_hash: String,
}

/// Where the server is and how long to wait for it.
#[derive(Debug, Clone)]
pub struct Lean4Client {
    pub base_url: String,
    pub timeout_ms: u64,
}

/// What went wrong with a verify call.
#[derive(Debug, Clone, PartialEq)]
pub enum LeanClientError {
    InvalidRequest(String),
    Transport(String),
    ServerError(u16),
    MalformedResponse(String),
}

/// The outcome of a verify call, classified.
#[derive(Debug, Clone, PartialEq)]
pub enum VerifyVerdict {
    Proved { proof_hash: String },
    Rejected { errors: Vec<String> },
    Unreachable { detail: String },
    Error { detail: String },
}

impl Default for Lean4Client {
    fn default() -> (r: Self)
        ensures
            r.base_url@ == "http://127.0.0.1:8090"@,
            r.timeout_ms == DEFAULT_TIMEOUT_MS,
    {
        Lean4Client { base_url: String::from_str("http://127.0.0.1:8090"), timeout_ms: DEFAULT_TIMEOUT_MS }
    }
}

/// `s` without trailing slashes.
pub open spec fn trim_slashes(s: Seq<char>) -> Seq<char>
    decreases s.len(),
{
    if s.len() > 0 && s.last() == '/' {
        trim_slashes(s.drop_last())
    } else {
        s
    }
}

/// The message of an error.
pub open spec fn error_message(e: LeanClientError) -> Seq<char> {
    match e {
        LeanClientError::InvalidRequest(s) => "invalid request: "@ + s@,
        LeanClientError::Transport(s) => "transport: "@ + s@,
        LeanClientError::ServerError(c) => "server HTTP "@ + decimal(c as nat),
        LeanClientError::MalformedResponse(s) => "malformed response: "@ + s@,
    }
}

proof fn lemma_trim_slashes_take(s: Seq<char>)
    requires
        s.len() == 0 || s.last() != '/',
    ensures
        trim_slashes(s) == s,
{
}

impl LeanClientError {
    /// The message of the error.
    pub fn message(&self) -> (r: String)
        ensures
            r@ == error_message(*self),
    {
        let mut out: Vec<char> = Vec::new();
        match self {
            LeanClientError::InvalidRequest(s) => {
                push_str(&mut out, "invalid request: ");
                push_str(&mut out, s.as_str());
            },
            LeanClientError::Transport(s) => {
                push_str(&mut out, "transport: ");
                push_str(&mut out, s.as_str());
            },
            LeanClientError::ServerError(c) => {
                push_str(&mut out, "server HTTP ");
                push_decimal(&mut out, *c as u64);
            },
            LeanClientError::MalformedResponse(s) => {
                push_str(&mut out, "malformed response: ");
                push_str(&mut out, s.as_str());
            },
        }
        string_from(out.as_slice())
    }
}

impl Lean4Client {
    /// A client for the server at `base_url`, with the default timeout.
    pub fn new(base_url: &str) -> (r: Self)
        ensures
            r.base_url@ == base_url@,
            r.timeout_ms == DEFAULT_TIMEOUT_MS,
    {
        Lean4Client { base_url: String::from_str(base_url), timeout_ms: DEFAULT_TIMEOUT_MS }
    }

    /// The same client with another timeout.
    pub fn with_timeout(self, ms: u64) -> (r: Self)
        ensures
            r.base_url == self.base_url,
            r.timeout_ms == ms,
    {
        let mut c = self;
        c.timeout_ms = ms;
        c
    }

    /// The endpoint a verify call posts to: the base address without
    /// trailing slashes, then "/verify".
    pub fn verify_url(&self) -> (r: String)
        ensures
            r@ == trim_slashes(self.base_url@) + "/verify"@,
    {
        let b = chars_of(self.base_url.as_str());
        let mut n: usize = b.len();
        assert(b@.take(n as int) =~= b@);
        while n > 0 && b[n - 1] == '/'
            invariant
                n <= b@.len(),
                trim_slashes(b@) == trim_slashes(b@.take(n as int)),
            decreases n,
        {
            assert(b@.take(n as int).drop_last() =~= b@.take(n - 1));
            n = n - 1;
        }
        let mut out: Vec<char> = Vec::new();
        let mut i: usize = 0;
        while i < n
            invariant
                n <= b@.len(),
                i <= n,
                out@ == b@.take(i as int),
            decreases n - i,
        {
            out.push(b[i]);
            assert(b@.take(i as int + 1) =~= b@.take(i as int).push(b@[i as int]));
            i = i + 1;
        }
        proof {
            lemma_trim_slashes_take(b@.take(n as int));
        }
        push_str(&mut out, "/verify");
        string_from(out.as_slice())
    }

    /// The request for a proof obligation: refused unless it holds 1 to
    /// 65,536 bytes.
    pub fn request_for(&self, lean_code: &str) -> (r: Result<ProofRequest, LeanClientError>)
        ensures
            (lean_code@.len() == 0 || utf8_len(lean_code@) > MAX_LEAN_BYTES) ==> (r matches Err(
                LeanClientError::InvalidRequest(m),
            ) && m@ == "lean_code must be 1..=65536 chars"@),
            !(lean_code@.len() == 0 || utf8_len(lean_code@) > MAX_LEAN_BYTES) ==> (r matches Ok(
                req,
            ) && req.lean_code@ == lean_code@ && req.timeout_ms == self.timeout_ms),
    {
        let cs = chars_of(lean_code);
        if cs.len() == 0 || byte_len(cs.as_slice()) > MAX_LEAN_BYTES {
            return Err(
                LeanClientError::InvalidRequest(String::from_str("lean_code must be 1..=65536 chars")),
            );
        }
        Ok(ProofRequest { lean_code: String::from_str(lean_code), timeout_ms: self.timeout_ms })
    }
}

/// Classify the outcome of a verify call: a valid answer is a proof, an
/// invalid one a rejection, a transport failure means the server could not
/// be reached, and any other failure is an error with its message.
pub fn verdict_of(result: Result<ProofResponse, LeanClientError>) -> (r: VerifyVerdict)
    ensures
        match result {
            Ok(resp) => if resp.valid {
                r == VerifyVerdict::Proved { proof_hash: resp.proof_hash }
            } else {
                r == VerifyVerdict::Rejected { errors: resp.errors }
            },
            Err(LeanClientError::Transport(e)) => r == VerifyVerdict::Unreachable { detail: e },
            Err(err) => r matches VerifyVerdict::Error { detail } && detail@ == error_message(err),
        },
{
    match result {
        Ok(resp) => if resp.valid {
            VerifyVerdict::Proved { proof_hash: resp.proof_hash }
        } else {
            VerifyVerdict::Rejected { errors: resp.errors }
        },
        Err(LeanClientError::Transport(e)) => VerifyVerdict::Unreachable { detail: e },
        Err(err) => VerifyVerdict::Error { detail: err.message() },
    }
}

} // verus!
