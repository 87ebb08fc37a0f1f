//! The demo targets: image resizing and a sequential composition, each bound
//! to the platform it runs on.
use vstd::prelude::*;
use crate::modes::App;
use crate::platform::PlatformOpsBind;

verus! {

/// The image-resizing demo.
pub struct ImgResize(pub Option<PlatformOpsBind>);

/// The sequential-composition demo.
pub struct Sequential(pub Option<PlatformOpsBind>);

impl Default for ImgResize {
    fn default() -> (r: Self)
        ensures
            r.0 is None,
    {
        ImgResize(None)
    }
}

impl Default for Sequential {
    fn default() -> (r: Self)
        ensures
            r.0 is None,
    {
        Sequential(None)
    }
}

impl ImgResize {
    /// The demo's application.
    pub fn app(&self) -> (r: App)
        ensures
            r == App::ImgResize,
    {
        App::ImgResize
    }

    /// Binds the demo to a platform.
    pub fn set_platform(&mut self, platform: PlatformOpsBind)
        ensures
            final(self).0 == Some(platform),
    {
        self.0 = Some(platform);
    }

    /// The platform the demo is bound to.
    pub fn get_platform(&mut self) -> (r: &mut PlatformOpsBind)
        requires
            old(self).0 is Some,
        ensures
            *r == old(self).0.unwrap(),
            final(self).0 == Some(*final(r)),
    {
        self.0.as_mut().unwrap()
    }
}

impl Sequential {
    /// The demo's application.
    pub fn app(&self) -> (r: App)
        ensures
            r == App::Sequential,
    {
        App::Sequential
    }

    /// Binds the demo to a platform.
    pub fn set_platform(&mut self, platform: PlatformOpsBind)
        ensures
            final(self).0 == Some(platform),
    {
        self.0 = Some(platform);
    }

    /// The platform the demo is bound to.
    pub fn get_platform(&mut self) -> (r: &mut PlatformOpsBind)
        requires
            old(self).0 is Some,
        ensures
            *r == old(self).0.unwrap(),
            final(self).0 == Some(*final(r)),
    {
        self.0.as_mut().unwrap()
    }
}

} // verus!
