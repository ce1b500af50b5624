use vstd::prelude::*;

verus! {

/// Frame rate the limiter starts with.
pub const DEFAULT_FPS: u32 = 60;

/// How frames are paced: to the display, to a fixed rate, or not at all.
#[derive(PartialEq, Eq, Structural, Clone, Copy, Debug)]
pub enum Limiter {
    Auto,
    Manual(u32),
    Off,
}

/// The frame rate chosen by hand.
#[derive(PartialEq, Eq, Structural, Clone, Copy, Debug)]
pub struct FpsSettings {
    pub fps: u32,
}

impl Default for FpsSettings {
    fn default() -> (r: FpsSettings)
        ensures
            r.fps == DEFAULT_FPS,
    {
        FpsSettings { fps: DEFAULT_FPS }
    }
}

/// Keys pressed this frame: cycle the limiter, raise the rate, lower the rate.
#[derive(PartialEq, Eq, Structural, Clone, Copy, Debug)]
pub struct FramepaceKeys {
    pub toggle: bool,
    pub faster: bool,
    pub slower: bool,
}

/// Limiter and rate after one frame of keys. The toggle cycles Auto, Off, the
/// chosen rate; a rate change picks the new rate, which never drops below one.
pub open spec fn framepace_after(l: Limiter, fps: u32, k: FramepaceKeys) -> (Limiter, u32) {
    let l1 = if k.toggle {
        match l {
            Limiter::Auto => Limiter::Off,
            Limiter::Manual(_) => Limiter::Auto,
            Limiter::Off => Limiter::Manual(fps),
        }
    } else {
        l
    };
    let fps2 = if k.faster { (fps + 1) as u32 } else { fps };
    let l2 = if k.faster { Limiter::Manual(fps2) } else { l1 };
    let fps3 = if k.slower { if fps2 - 1 == 0 { 1 } else { (fps2 - 1) as u32 } } else { fps2 };
    let l3 = if k.slower { Limiter::Manual(fps3) } else { l2 };
    (l3, fps3)
}

pub fn toggle_framepace_plugin(limiter: &mut Limiter, settings: &mut FpsSettings, keys: FramepaceKeys)
    requires
        keys.faster ==> old(settings).fps < u32::MAX,
        keys.slower && !keys.faster ==> old(settings).fps >= 1,
    ensures
        (*final(limiter), final(settings).fps) == framepace_after(*old(limiter), old(settings).fps, keys),
{
    if keys.toggle {
        *limiter = match *limiter {
            Limiter::Auto => Limiter::Off,
            Limiter::Manual(_) => Limiter::Auto,
            Limiter::Off => Limiter::Manual(settings.fps),
        };
    }
    if keys.faster {
        settings.fps = settings.fps + 1;
        *limiter = Limiter::Manual(settings.fps);
    }
    if keys.slower {
        settings.fps = settings.fps - 1;
        if settings.fps == 0 {
            settings.fps = 1;
        }
        *limiter = Limiter::Manual(settings.fps);
    }
}

} // verus!
