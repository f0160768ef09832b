use vstd::prelude::*;

verus! {

/// The errors of the library, each with a message.
#[allow(clippy::enum_variant_names)]
#[derive(Debug)]
pub enum Error {
    FailedToInitConsoleLogger(String),
    FailedToCreateEventLoop(String),
    FailedToStartApp(String),
    FailedToCreateRenderer(String),
    FailedToCreateWindow(String),
    FailedToAcquireHtmlElement(String),
    FailedToCreateWindowSurface(String),
    FailedToLoadImage(String),
    FailedToLoadFont(String),
    FailedToOpenFontFile(String),
    FailedToCreateFontTexture(String),
    FailedToCreateFontTextureImage(String),
    CreateSurfaceWithAsyncWebHandler(),
}

} // verus!
