//! The route binder: which routes of the host application are handed to the
//! forwarding handler.

use crate::text::option_text;
use vstd::prelude::*;
use vstd::string::StringExecFns;

verus! {

/// Whether the application is built for development or for production.
#[derive(Clone, Copy, Debug, PartialEq, Eq, Structural)]
pub enum Mode {
    Development,
    Production,
}

/// A route that is served by the forwarding handler.
#[derive(Clone, Copy, Debug, PartialEq, Eq, Structural)]
pub enum Route {
    /// Every request that no other route matches, whatever its method.
    CatchAll,
    /// `GET` requests for any path.
    Files,
    /// `GET` requests for paths below `/node_modules/`.
    NodeModules,
}

/// The path pattern of a route; the catch-all route has none.
pub open spec fn route_pattern(route: Route) -> Option<Seq<char>> {
    match route {
        Route::CatchAll => None,
        Route::Files => Some("/{file:.*}"@),
        Route::NodeModules => Some("/node_modules/{file:.*}"@),
    }
}

/// The routes that are bound in a mode, in the order in which they are
/// registered: all three in development, none in production.
pub open spec fn bound_routes(mode: Mode) -> Seq<Route> {
    match mode {
        Mode::Development => seq![Route::CatchAll, Route::Files, Route::NodeModules],
        Mode::Production => Seq::empty(),
    }
}

impl Route {
    /// The path pattern under which the route is registered; `None` for the
    /// catch-all route, which is registered as the default service.
    pub fn pattern(&self) -> (pattern: Option<String>)
        ensures
            option_text(pattern) == route_pattern(*self),
    {
        match self {
            Route::CatchAll => None,
            Route::Files => Some(String::from_str("/{file:.*}")),
            Route::NodeModules => Some(String::from_str("/node_modules/{file:.*}")),
        }
    }

    /// Whether the route serves `GET` requests only.
    pub fn get_only(&self) -> (b: bool)
        ensures
            b == (*self != Route::CatchAll),
    {
        match self {
            Route::CatchAll => false,
            _ => true,
        }
    }
}

/// The routes of an application that go to the forwarding handler, in the
/// order of their registration.
#[derive(Clone, Debug, PartialEq, Eq)]
pub struct RouteTable {
    /// The mode that the application is built for.
    pub mode: Mode,
    /// The routes registered so far.
    pub routes: Vec<Route>,
}

impl RouteTable {
    /// A table for `mode` in which no route is registered.
    pub fn new(mode: Mode) -> (table: Self)
        ensures
            table.mode == mode,
            table.routes@ == Seq::<Route>::empty(),
    {
        RouteTable { mode, routes: Vec::new() }
    }
}

/// Something that routes can be registered on, and that can therefore be
/// set up for the development proxy.
pub trait ViteAppFactory {
    /// Registers the routes of the development proxy. In a production build
    /// nothing is registered.
    fn configure_vite(self) -> Self;
}

impl ViteAppFactory for RouteTable {
    fn configure_vite(self) -> (configured: Self)
        ensures
            configured.mode == self.mode,
            configured.routes@ == self.routes@ + bound_routes(self.mode),
    {
        let mut configured = self;
        match configured.mode {
            Mode::Development => {
                configured.routes.push(Route::CatchAll);
                configured.routes.push(Route::Files);
                configured.routes.push(Route::NodeModules);
                assert(configured.routes@ =~= self.routes@ + bound_routes(self.mode));
            },
            Mode::Production => {
                assert(configured.routes@ =~= self.routes@ + bound_routes(self.mode));
            },
        }
        configured
    }
}

} // verus!
