//! The pages of the client and which one each route shows.
use vstd::prelude::*;

verus! {

/// The routes of the client.
#[derive(Debug, Clone, Copy, PartialEq, Eq, Structural)]
pub enum Route {
    /// `/`
    Home,
    /// `/gecko`
    Gecko,
    /// `/room`
    Room,
    /// `/404`, and every path without a route.
    NotFound,
}

/// What a route shows.
#[derive(Debug, Clone, Copy, PartialEq, Eq, Structural)]
pub enum Page {
    /// Go on to another route.
    Redirect(Route),
    GeckoPage,
    RoomPage,
    /// "Page not found :(" with a button back home.
    NotFoundPage,
}

/// The page for `route`: home sends the player on to the room page.
pub fn switch(route: Route) -> (p: Page)
    ensures
        p == match route {
            Route::Home => Page::Redirect(Route::Room),
            Route::Gecko => Page::GeckoPage,
            Route::Room => Page::RoomPage,
            Route::NotFound => Page::NotFoundPage,
        },
{
    match route {
        Route::Home => Page::Redirect(Route::Room),
        Route::Gecko => Page::GeckoPage,
        Route::Room => Page::RoomPage,
        Route::NotFound => Page::NotFoundPage,
    }
}

/// The path of each route.
pub fn path(route: Route) -> (p: &'static str)
    ensures
        p@ == match route {
            Route::Home => "/"@,
            Route::Gecko => "/gecko"@,
            Route::Room => "/room"@,
            Route::NotFound => "/404"@,
        },
{
    match route {
        Route::Home => "/",
        Route::Gecko => "/gecko",
        Route::Room => "/room",
        Route::NotFound => "/404",
    }
}

} // verus!
