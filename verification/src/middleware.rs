//! Middleware for cross-cutting concerns: authentication, rate limiting,
//! compression and metrics. Each layer handles one request and answers
//! with a response that carries the request on, or an error.

use vstd::prelude::*;

verus! {

/// A layer of middleware: it handles one request and answers with a
/// response or an error.
pub trait WebSocketMiddleware: Send + Sync {
    type Request;
    type Response;
    type Error;

    fn call(&self, request: Self::Request) -> Result<Self::Response, Self::Error>;
}

/// Claims carried by a validated token; `expires_at` in seconds.
#[derive(Debug, Clone)]
pub struct Claims {
    pub user_id: String,
    pub permissions: Vec<String>,
    pub expires_at: u64,
}

/// Authentication errors.
#[derive(Debug)]
pub enum AuthError {
    InvalidToken(String),
    ExpiredToken,
    MissingToken,
}

/// Validates tokens; implemented by the application.
pub trait JwtValidator: Send + Sync {
    fn validate(&self, token: &str) -> Result<Claims, AuthError>;
}

#[derive(Debug, Clone)]
pub struct AuthenticatedRequest {
    pub token: Option<String>,
    pub message: Vec<u8>,
}

#[derive(Debug, Clone)]
pub struct AuthenticatedResponse {
    pub claims: Claims,
    pub original_request: AuthenticatedRequest,
}

/// Authentication middleware
pub struct AuthenticationLayer {
    validator: Box<dyn JwtValidator>,
}

impl AuthenticationLayer {
    pub fn new(validator: Box<dyn JwtValidator>) -> (l: Self) {
        Self { validator }
    }
}

impl WebSocketMiddleware for AuthenticationLayer {
    type Request = AuthenticatedRequest;
    type Response = AuthenticatedResponse;
    type Error = AuthError;

    /// A request without a token is refused as missing one; otherwise the
    /// validator decides, and an accepted request is carried on with the
    /// claims of its token.
    fn call(&self, request: AuthenticatedRequest) -> (r: Result<AuthenticatedResponse, AuthError>)
        ensures
            request.token is None ==> (r matches Err(e) && e is MissingToken),
            r matches Ok(resp) ==> resp.original_request == request,
    {
        let claims = match &request.token {
            None => return Err(AuthError::MissingToken),
            Some(token) => self.validator.validate(token.as_str()),
        };
        match claims {
            Ok(claims) => Ok(AuthenticatedResponse { claims, original_request: request }),
            Err(e) => Err(e),
        }
    }
}

/// Rate limiting errors.
#[derive(Debug)]
pub enum RateLimitError {
    RateLimitExceeded,
}

/// Admits or refuses requests per user; implemented by the application.
pub trait RateLimiter: Send + Sync {
    fn check_and_consume(&self, user_id: &str, count: u32) -> Result<(), RateLimitError>;
}

#[derive(Debug, Clone)]
pub struct RateLimitedRequest {
    pub user_id: String,
    pub message: Vec<u8>,
}

#[derive(Debug, Clone)]
pub struct RateLimitedResponse {
    pub original_request: RateLimitedRequest,
}

/// Rate limiting middleware
pub struct RateLimitLayer {
    limiter: Box<dyn RateLimiter>,
}

impl RateLimitLayer {
    pub fn new(limiter: Box<dyn RateLimiter>) -> (l: Self) {
        Self { limiter }
    }
}

impl WebSocketMiddleware for RateLimitLayer {
    type Request = RateLimitedRequest;
    type Response = RateLimitedResponse;
    type Error = RateLimitError;

    /// Consumes one unit of the user's allowance; an admitted request is
    /// carried on unchanged.
    fn call(&self, request: RateLimitedRequest) -> (r: Result<RateLimitedResponse, RateLimitError>)
        ensures
            r matches Ok(resp) ==> resp.original_request == request,
    {
        let verdict = self.limiter.check_and_consume(request.user_id.as_str(), 1);
        rate_limit_outcome(request, verdict)
    }
}

/// What the rate-limiting layer answers for the limiter's verdict on a
/// request: the request carried on when admitted, the limiter's error
/// otherwise.
pub fn rate_limit_outcome(request: RateLimitedRequest, verdict: Result<(), RateLimitError>) -> (r: Result<RateLimitedResponse, RateLimitError>)
    ensures
        r == (match verdict {
            Ok(()) => Ok::<RateLimitedResponse, RateLimitError>(RateLimitedResponse { original_request: request }),
            Err(e) => Err::<RateLimitedResponse, RateLimitError>(e),
        }),
{
    match verdict {
        Ok(()) => Ok(RateLimitedResponse { original_request: request }),
        Err(e) => Err(e),
    }
}

/// Compression errors.
#[derive(Debug)]
pub enum CompressionError {
    CompressionFailed(String),
}

#[derive(Debug, Clone)]
pub struct CompressedRequest {
    pub data: Vec<u8>,
}

#[derive(Debug, Clone)]
pub struct CompressedResponse {
    pub data: Vec<u8>,
    pub original_size: usize,
}

/// The zstd frame that `zstd::encode_all` writes for `data` at `level`.
pub uninterp spec fn zstd_frame(data: Seq<u8>, level: i32) -> Seq<u8>;

/// `zstd::encode_all`: the zstd frame of `data` at compression `level`, or
/// the message of the I/O error. The frame's bytes are named, not stated.
#[verifier::external_body]
fn zstd_encode(data: &[u8], level: i32) -> (r: Result<Vec<u8>, String>)
    ensures
        r matches Ok(v) ==> v@ == zstd_frame(data@, level),
{
    zstd::encode_all(data, level).map_err(|e| e.to_string())
}

/// The zstd level the compression layer uses.
pub const COMPRESSION_LEVEL: i32 = 3;

/// Compression middleware: payloads above the threshold are compressed.
pub struct CompressionLayer {
    threshold: usize,
}

impl CompressionLayer {
    pub closed spec fn spec_threshold(&self) -> usize {
        self.threshold
    }

    pub fn new(threshold: usize) -> (l: Self)
        ensures
            l.spec_threshold() == threshold,
    {
        Self { threshold }
    }
}

impl WebSocketMiddleware for CompressionLayer {
    type Request = CompressedRequest;
    type Response = CompressedResponse;
    type Error = CompressionError;

    /// Compresses a payload longer than the threshold and passes a shorter
    /// one through; the response records the original size.
    fn call(&self, request: CompressedRequest) -> (r: Result<CompressedResponse, CompressionError>)
        ensures
            request.data@.len() <= self.spec_threshold() ==> (r matches Ok(resp)
                && resp.data@ == request.data@ && resp.original_size == request.data@.len()),
            request.data@.len() > self.spec_threshold() ==> match r {
                Ok(resp) => resp.data@ == zstd_frame(request.data@, COMPRESSION_LEVEL) && resp.original_size == request.data@.len(),
                Err(e) => e is CompressionFailed,
            },
    {
        let original_size = request.data.len();
        if request.data.len() > self.threshold {
            match zstd_encode(request.data.as_slice(), COMPRESSION_LEVEL) {
                Ok(data) => Ok(CompressedResponse { data, original_size }),
                Err(e) => Err(CompressionError::CompressionFailed(e)),
            }
        } else {
            Ok(CompressedResponse { data: request.data, original_size })
        }
    }
}

/// Counters kept by the metrics layer.
#[derive(Debug, Clone, Copy, PartialEq, Eq, Structural)]
pub struct WebSocketMetrics {
    pub messages_sent: u64,
    pub messages_received: u64,
    pub bytes_sent: u64,
    pub bytes_received: u64,
    pub active_connections: u64,
    pub reconnection_attempts: u64,
}

/// The event a metrics request reports.
#[derive(Debug, Clone, Copy, PartialEq, Eq, Structural)]
pub enum MetricsRequestType {
    MessageSent,
    MessageReceived,
    ConnectionEstablished,
    ConnectionClosed,
    ReconnectionAttempt,
}

#[derive(Debug, Clone)]
pub struct MetricsRequest {
    pub request_type: MetricsRequestType,
    pub data: Vec<u8>,
}

#[derive(Debug, Clone)]
pub struct MetricsResponse {
    pub metrics: WebSocketMetrics,
    pub original_request: MetricsRequest,
}

/// Metrics errors.
#[derive(Debug)]
pub enum MetricsError {
    CollectionFailed(String),
}

/// The counters after one event with a payload of `len` bytes; closing a
/// connection never takes the count below zero.
pub open spec fn metrics_after(m: WebSocketMetrics, t: MetricsRequestType, len: nat) -> WebSocketMetrics {
    match t {
        MetricsRequestType::MessageSent => WebSocketMetrics {
            messages_sent: (m.messages_sent + 1) as u64,
            bytes_sent: (m.bytes_sent + len) as u64,
            ..m
        },
        MetricsRequestType::MessageReceived => WebSocketMetrics {
            messages_received: (m.messages_received + 1) as u64,
            bytes_received: (m.bytes_received + len) as u64,
            ..m
        },
        MetricsRequestType::ConnectionEstablished => WebSocketMetrics {
            active_connections: (m.active_connections + 1) as u64,
            ..m
        },
        MetricsRequestType::ConnectionClosed => WebSocketMetrics {
            active_connections: if m.active_connections > 0 { (m.active_connections - 1) as u64 } else { 0 },
            ..m
        },
        MetricsRequestType::ReconnectionAttempt => WebSocketMetrics {
            reconnection_attempts: (m.reconnection_attempts + 1) as u64,
            ..m
        },
    }
}

/// The counters can take one event of this kind and size without overflow.
pub open spec fn metrics_fit(m: WebSocketMetrics, t: MetricsRequestType, len: nat) -> bool {
    match t {
        MetricsRequestType::MessageSent => m.messages_sent < u64::MAX && m.bytes_sent + len <= u64::MAX,
        MetricsRequestType::MessageReceived => m.messages_received < u64::MAX && m.bytes_received + len <= u64::MAX,
        MetricsRequestType::ConnectionEstablished => m.active_connections < u64::MAX,
        MetricsRequestType::ConnectionClosed => true,
        MetricsRequestType::ReconnectionAttempt => m.reconnection_attempts < u64::MAX,
    }
}

/// Metrics middleware
pub struct MetricsLayer {
    metrics: WebSocketMetrics,
}

impl MetricsLayer {
    pub closed spec fn spec_metrics(&self) -> WebSocketMetrics {
        self.metrics
    }

    /// A layer with every counter at zero.
    pub fn new() -> (l: Self)
        ensures
            l.spec_metrics() == (WebSocketMetrics {
                messages_sent: 0,
                messages_received: 0,
                bytes_sent: 0,
                bytes_received: 0,
                active_connections: 0,
                reconnection_attempts: 0,
            }),
    {
        Self {
            metrics: WebSocketMetrics {
                messages_sent: 0,
                messages_received: 0,
                bytes_sent: 0,
                bytes_received: 0,
                active_connections: 0,
                reconnection_attempts: 0,
            },
        }
    }

    /// Counts the event and answers with the counters after it.
    pub fn call(&mut self, request: MetricsRequest) -> (r: Result<MetricsResponse, MetricsError>)
        requires
            metrics_fit(old(self).spec_metrics(), request.request_type, request.data@.len()),
        ensures
            final(self).spec_metrics() == metrics_after(old(self).spec_metrics(), request.request_type, request.data@.len()),
            r matches Ok(resp) && resp.metrics == final(self).spec_metrics() && resp.original_request == request,
    {
        let len = request.data.len() as u64;
        match request.request_type {
            MetricsRequestType::MessageSent => {
                self.metrics.messages_sent = self.metrics.messages_sent + 1;
                self.metrics.bytes_sent = self.metrics.bytes_sent + len;
            },
            MetricsRequestType::MessageReceived => {
                self.metrics.messages_received = self.metrics.messages_received + 1;
                self.metrics.bytes_received = self.metrics.bytes_received + len;
            },
            MetricsRequestType::ConnectionEstablished => {
                self.metrics.active_connections = self.metrics.active_connections + 1;
            },
            MetricsRequestType::ConnectionClosed => {
                if self.metrics.active_connections > 0 {
                    self.metrics.active_connections = self.metrics.active_connections - 1;
                }
            },
            MetricsRequestType::ReconnectionAttempt => {
                self.metrics.reconnection_attempts = self.metrics.reconnection_attempts + 1;
            },
        }
        Ok(MetricsResponse { metrics: self.metrics, original_request: request })
    }
}

/// Errors of the middleware stack.
#[derive(Debug)]
pub enum MiddlewareError {
    AuthenticationFailed(AuthError),
    RateLimitExceeded(RateLimitError),
    CompressionFailed(CompressionError),
    MetricsError(MetricsError),
}


/// A layer that a stack can hold: a middleware whose requests and
/// responses are of one type and whose errors are `MiddlewareError`.
pub trait StackLayer<T>: Send + Sync {
    fn pass(&self, request: T) -> Result<T, MiddlewareError>;
}

impl<T, M: WebSocketMiddleware<Request = T, Response = T, Error = MiddlewareError>> StackLayer<T> for M {
    fn pass(&self, request: T) -> (r: Result<T, MiddlewareError>) {
        self.call(request)
    }
}

/// A layer held by a stack.
#[verifier::reject_recursive_types(T)]
struct BoxedLayer<T> {
    layer: Box<dyn StackLayer<T>>,
}

/// Middleware stack builder
#[verifier::reject_recursive_types(T)]
pub struct MiddlewareStackBuilder<T> {
    middlewares: Vec<BoxedLayer<T>>,
}

impl<T> MiddlewareStackBuilder<T> {
    /// The number of layers added so far.
    pub closed spec fn spec_len(&self) -> nat {
        self.middlewares@.len()
    }

    pub fn new() -> (b: Self)
        ensures
            b.spec_len() == 0,
    {
        Self { middlewares: Vec::new() }
    }

    /// Adds a layer after those already added.
    pub fn add<M: WebSocketMiddleware<Request = T, Response = T, Error = MiddlewareError> + 'static>(self, middleware: M) -> (b: Self)
        ensures
            b.spec_len() == self.spec_len() + 1,
    {
        let mut middlewares = self.middlewares;
        let layer: Box<dyn StackLayer<T>> = Box::new(middleware);
        let item = BoxedLayer { layer };
        let ghost before = middlewares@;
        middlewares.push(item);
        proof { vstd::seq::axiom_seq_push_len(before, item); }
        Self { middlewares }
    }

    /// The stack of the layers added, in the order they were added.
    pub fn build(self) -> (s: MiddlewareStack<T>)
        ensures
            s.spec_len() == self.spec_len(),
    {
        MiddlewareStack { middlewares: self.middlewares }
    }
}

/// Middleware stack: each layer in turn handles what the one before it
/// passed on.
#[verifier::reject_recursive_types(T)]
pub struct MiddlewareStack<T> {
    middlewares: Vec<BoxedLayer<T>>,
}

impl<T> MiddlewareStack<T> {
    /// The number of layers.
    pub closed spec fn spec_len(&self) -> nat {
        self.middlewares@.len()
    }

    /// The number of layers.
    pub fn len(&self) -> (n: usize)
        ensures
            n == self.spec_len(),
    {
        self.middlewares.len()
    }

    /// Passes the request through every layer in order; the first error
    /// stops it. With no layers the request comes back unchanged.
    pub fn process(&self, request: T) -> (r: Result<T, MiddlewareError>)
        ensures
            self.spec_len() == 0 ==> r == Ok::<T, MiddlewareError>(request),
    {
        let mut current = request;
        let mut i: usize = 0;
        while i < self.middlewares.len()
            invariant
                i <= self.middlewares@.len(),
                i == 0 ==> current == request,
            decreases self.middlewares@.len() - i,
        {
            match self.middlewares[i].layer.pass(current) {
                Ok(next) => { current = next; },
                Err(e) => { return Err(e); },
            }
            i += 1;
        }
        Ok(current)
    }
}

} // verus!
