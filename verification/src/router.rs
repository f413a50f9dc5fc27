//! The dictionary app's tabs and the router that remembers the open one.

use vstd::prelude::*;

verus! {

/// The tabs of the dictionary app.
#[derive(Debug, Clone, Copy, PartialEq, Eq, Structural)]
pub enum Route {
    Search,
    Import,
    ThreeD,
    Audio,
    ShaderError,
    Settings,
    Anki,
}

impl Default for Route {
    fn default() -> (r: Route)
        ensures
            r == Route::Search,
    {
        Route::Search
    }
}

impl Route {
    /// The tab paints the dark full-window background (all but the shader,
    /// audio and shader error tabs).
    pub fn has_background(&self) -> (b: bool)
        ensures
            b == (*self != Route::ThreeD && *self != Route::Audio && *self != Route::ShaderError),
    {
        *self != Route::ThreeD && *self != Route::Audio && *self != Route::ShaderError
    }
}

/// Remembers which tab is open.
#[derive(Debug, Clone, Copy, PartialEq, Eq, Structural)]
pub struct Router {
    pub c_route: Route,
}

impl Default for Router {
    fn default() -> (r: Router)
        ensures
            r.c_route == Route::Search,
    {
        Router { c_route: Route::Search }
    }
}

impl Router {
    /// Opens tab `r`.
    pub fn set(&mut self, r: Route)
        ensures
            final(self).c_route == r,
    {
        self.c_route = r;
    }
}

} // verus!
