//! pgferry: the decision core of a programmable PostgreSQL proxy.
//!
//! The library decides; its caller performs. Messages, connections and clocks
//! are plain values here, so that what a session, a pool or a router does is
//! stated and proved. Sockets, TLS, timers and tasks belong to the program
//! around it.

pub use cancel::CancelRouter;
pub use config::{EndpointConfig, EndpointId, RouteConfig};
pub use intercept::{
    Action, ColumnMeta, CycleKind, CycleReport, DataRowMut, NoopInterceptor, QueryCycle,
    RetryDecision, RoutingInfo, RowAction, RowError, RowSchema, UpstreamError,
};
pub use pool::{Pool, PoolConfig, PoolKey, PoolManager, PoolMode, UpstreamLease};
pub use proxy::{Proxy, ProxyBuilder, ProxyConfig};
pub use routing::{EndpointGroup, FailoverRouter, ReadPreference, RwSplit};
pub use scatter::{MergePolicy, ScatterLeg, ScatterRequest, ShardSet};

pub mod admin;
pub mod cancel;
pub mod config;
pub mod intercept;
pub mod metrics;
pub mod pool;
pub mod proxy;
pub mod routing;
pub mod runtime;
pub mod scatter;
pub mod session;
pub mod settings;
pub mod text;
pub mod textmap;
pub mod time;
pub mod tls;
pub mod wire;
