//! Routing: which handler answers a request, by its method and path.

use crate::text::{
    is_prefix, is_suffix, range_ends_with, range_is, split_bounds, split_on, starts_with, str_eq,
    to_chars,
};
use vstd::prelude::*;
use vstd::string::*;

verus! {

/// The method of a request, as far as routing tells methods apart.
#[derive(Debug, Clone, Copy, PartialEq, Eq, Structural)]
pub enum Method {
    Get,
    Post,
    Other,
}

/// The charts that are served for a node.
#[derive(Debug, Clone, Copy, PartialEq, Eq, Structural)]
pub enum ChartKind {
    Cpu,
    Memory,
    Temperature,
}

/// The kind of content that a response holds.
#[derive(Debug, Clone, Copy, PartialEq, Eq, Structural)]
pub enum ContentType {
    Json,
    Html,
    Svg,
}

impl ContentType {
    /// The media type, as the `Content-Type` header names it.
    pub open spec fn media_type(self) -> Seq<char> {
        match self {
            ContentType::Json => "application/json"@,
            ContentType::Html => "text/html; charset=utf-8"@,
            ContentType::Svg => "image/svg+xml"@,
        }
    }

    /// The value of the `Content-Type` header.
    pub fn as_str(&self) -> (header: &'static str)
        ensures
            header@ == self.media_type(),
    {
        match self {
            ContentType::Json => "application/json",
            ContentType::Html => "text/html; charset=utf-8",
            ContentType::Svg => "image/svg+xml",
        }
    }
}

/// The handler that answers a request.
#[derive(Debug, Clone)]
pub enum Route {
    /// `POST /api/v1/probe`: a batch to store.
    Probe,
    /// `GET /health`.
    Health,
    /// `GET /ui`: the list of nodes.
    Home,
    /// `GET /ui/node/{id}`: the dashboard of a node.
    NodeDashboard { node_id: String },
    /// `GET /ui/node/{id}/{chart}.svg`: a chart of a node.
    Chart { node_id: String, kind: ChartKind },
    /// Nothing is served there. The answer is announced as `content_type`.
    NotFound { content_type: ContentType },
}

/// A route in mathematical terms.
pub enum RouteView {
    Probe,
    Health,
    Home,
    NodeDashboard { node_id: Seq<char> },
    Chart { node_id: Seq<char>, kind: ChartKind },
    NotFound { content_type: ContentType },
}

impl View for Route {
    type V = RouteView;

    open spec fn view(&self) -> RouteView {
        match self {
            Route::Probe => RouteView::Probe,
            Route::Health => RouteView::Health,
            Route::Home => RouteView::Home,
            Route::NodeDashboard { node_id } => RouteView::NodeDashboard { node_id: node_id@ },
            Route::Chart { node_id, kind } => RouteView::Chart { node_id: node_id@, kind: *kind },
            Route::NotFound { content_type } => RouteView::NotFound {
                content_type: *content_type,
            },
        }
    }
}

impl RouteView {
    /// The kind of content that the handler of the route answers with.
    pub open spec fn content_type(self) -> ContentType {
        match self {
            RouteView::Probe => ContentType::Json,
            RouteView::Health => ContentType::Json,
            RouteView::Home => ContentType::Html,
            RouteView::NodeDashboard { .. } => ContentType::Html,
            RouteView::Chart { .. } => ContentType::Svg,
            RouteView::NotFound { content_type } => content_type,
        }
    }
}

impl Route {
    /// The kind of content that the handler of the route answers with.
    pub fn content_type(&self) -> (content_type: ContentType)
        ensures
            content_type == self@.content_type(),
    {
        match self {
            Route::Probe => ContentType::Json,
            Route::Health => ContentType::Json,
            Route::Home => ContentType::Html,
            Route::NodeDashboard { .. } => ContentType::Html,
            Route::Chart { .. } => ContentType::Svg,
            Route::NotFound { content_type } => *content_type,
        }
    }
}

/// The route of a chart file of a node.
pub open spec fn chart_route(node_id: Seq<char>, file: Seq<char>) -> RouteView {
    if file == "cpu.svg"@ {
        RouteView::Chart { node_id, kind: ChartKind::Cpu }
    } else if file == "memory.svg"@ {
        RouteView::Chart { node_id, kind: ChartKind::Memory }
    } else if file == "temperature.svg"@ {
        RouteView::Chart { node_id, kind: ChartKind::Temperature }
    } else if is_suffix(".svg"@, file) {
        RouteView::NotFound { content_type: ContentType::Svg }
    } else {
        RouteView::NotFound { content_type: ContentType::Json }
    }
}

/// The route of a path under `/ui/node/`. The parts of the path are what
/// stands between its slashes; the node is named by the fourth. A path of
/// exactly five parts asks for a chart file, every other for the
/// dashboard.
pub open spec fn node_route(path: Seq<char>) -> RouteView {
    let parts = split_on(path, '/');
    if parts.len() < 4 {
        RouteView::NotFound { content_type: ContentType::Json }
    } else if parts.len() == 5 {
        chart_route(parts[3], parts[4])
    } else {
        RouteView::NodeDashboard { node_id: parts[3] }
    }
}

/// The route of a request.
pub open spec fn route_of(method: Method, path: Seq<char>) -> RouteView {
    if method == Method::Post && path == "/api/v1/probe"@ {
        RouteView::Probe
    } else if method == Method::Get && path == "/health"@ {
        RouteView::Health
    } else if method == Method::Get && path == "/ui"@ {
        RouteView::Home
    } else if method == Method::Get && is_prefix("/ui/node/"@, path) {
        node_route(path)
    } else {
        RouteView::NotFound { content_type: ContentType::Json }
    }
}

/// Finds the route of a path under `/ui/node/`.
pub fn route_node(path: &str) -> (route: Route)
    ensures
        route@ == node_route(path@),
{
    let chars = to_chars(path);
    let bounds = split_bounds(&chars, '/');
    if bounds.len() < 4 {
        return Route::NotFound { content_type: ContentType::Json };
    }
    let (id_from, id_to) = bounds[3];
    let node_id = String::from_str(path.substring_char(id_from, id_to));
    if bounds.len() == 5 {
        let (from, to) = bounds[4];
        let cpu = to_chars("cpu.svg");
        let memory = to_chars("memory.svg");
        let temperature = to_chars("temperature.svg");
        let svg = to_chars(".svg");
        if range_is(&chars, from, to, &cpu) {
            Route::Chart { node_id, kind: ChartKind::Cpu }
        } else if range_is(&chars, from, to, &memory) {
            Route::Chart { node_id, kind: ChartKind::Memory }
        } else if range_is(&chars, from, to, &temperature) {
            Route::Chart { node_id, kind: ChartKind::Temperature }
        } else if range_ends_with(&chars, from, to, &svg) {
            Route::NotFound { content_type: ContentType::Svg }
        } else {
            Route::NotFound { content_type: ContentType::Json }
        }
    } else {
        Route::NodeDashboard { node_id }
    }
}

/// Finds the route of a request.
pub fn route(method: Method, path: &str) -> (route: Route)
    ensures
        route@ == route_of(method, path@),
{
    match method {
        Method::Post => {
            if str_eq(path, "/api/v1/probe") {
                Route::Probe
            } else {
                Route::NotFound { content_type: ContentType::Json }
            }
        },
        Method::Get => {
            if str_eq(path, "/health") {
                Route::Health
            } else if str_eq(path, "/ui") {
                Route::Home
            } else {
                let chars = to_chars(path);
                let prefix = to_chars("/ui/node/");
                if starts_with(&chars, &prefix) {
                    route_node(path)
                } else {
                    Route::NotFound { content_type: ContentType::Json }
                }
            }
        },
        Method::Other => Route::NotFound { content_type: ContentType::Json },
    }
}

} // verus!
