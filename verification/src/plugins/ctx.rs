//! What plugins see of the compositor, and what they ask of it.

use vstd::prelude::*;

use crate::input::OskController;
use crate::wm::{OutputId, WindowManager};

verus! {

/// What a plugin asks the compositor to do.
#[derive(Debug, Clone, PartialEq, Eq)]
pub enum CtxAction {
    /// Hand a key, with the modifiers held, to the focused client. Both are evdev
    /// codes.
    Chord { mods: Vec<u32>, key: u32 },
    /// Open or close the overview on an output.
    ToggleOverview(OutputId),
    /// Hide the on-screen keyboard.
    HideOsk,
}

pub enum CtxActionView {
    Chord { mods: Seq<u32>, key: u32 },
    ToggleOverview(OutputId),
    HideOsk,
}

impl View for CtxAction {
    type V = CtxActionView;

    open spec fn view(&self) -> CtxActionView {
        match *self {
            CtxAction::Chord { mods, key } => CtxActionView::Chord { mods: mods@, key },
            CtxAction::ToggleOverview(output) => CtxActionView::ToggleOverview(output),
            CtxAction::HideOsk => CtxActionView::HideOsk,
        }
    }
}

/// A curated handle to the compositor. What is asked of it is done by the caller,
/// in order, once the plugin is through.
pub struct PluginCtx<'a> {
    pub wm: &'a WindowManager,
    pub osk: &'a OskController,
    /// Whether a full-screen or modal overlay is open.
    pub blocked: bool,
    /// Milliseconds since the compositor's start.
    pub now: u64,
    /// What was asked so far, in order.
    pub actions: Vec<CtxAction>,
}

impl<'a> PluginCtx<'a> {
    pub open spec fn asked(self) -> Seq<CtxActionView> {
        self.actions@.map_values(|a: CtxAction| a@)
    }

    /// The same view of the compositor, with one thing more asked.
    pub open spec fn asking(self, after: PluginCtx<'a>, a: CtxActionView) -> bool {
        &&& after.asked() == self.asked().push(a)
        &&& after.wm == self.wm
        &&& after.osk == self.osk
        &&& after.blocked == self.blocked
        &&& after.now == self.now
    }

    pub fn new(wm: &'a WindowManager, osk: &'a OskController, blocked: bool, now: u64) -> (r:
        PluginCtx<'a>)
        ensures
            r.wm == wm,
            r.osk == osk,
            r.blocked == blocked,
            r.now == now,
            r.asked() == Seq::<CtxActionView>::empty(),
    {
        let r = PluginCtx { wm, osk, blocked, now, actions: Vec::new() };
        assert(r.asked() =~= Seq::<CtxActionView>::empty());
        r
    }

    /// The time of the event, for gestures and double taps.
    pub fn now_ms(&self) -> (r: u64)
        ensures
            r == self.now,
    {
        self.now
    }

    pub fn wm(&self) -> (r: &WindowManager)
        ensures
            r == self.wm,
    {
        self.wm
    }

    /// Whether other plugins stand down.
    pub fn overlay_open(&self) -> (r: bool)
        ensures
            r == self.blocked,
    {
        self.blocked
    }

    /// The output that the on-screen keyboard is bound to, or the primary.
    pub fn osk_output(&self) -> (r: Option<OutputId>)
        ensures
            r == (match self.osk@.binding {
                Some(b) => Some(b.output),
                None => if self.wm@.outputs.len() > 0 {
                    Some(self.wm@.outputs[0].id)
                } else {
                    None
                },
            }),
    {
        match self.osk.bound_output() {
            Some(o) => Some(o),
            None => self.wm.primary_output(),
        }
    }

    /// Hand a key, or a chord such as Ctrl+C, to the focused client.
    pub fn synthesize_chord(&mut self, mods_evdev: &[u32], key_evdev: u32)
        ensures
            old(self).asking(
                *final(self),
                CtxActionView::Chord { mods: mods_evdev@, key: key_evdev },
            ),
    {
        let mut mods: Vec<u32> = Vec::new();
        let mut i: usize = 0;
        while i < mods_evdev.len()
            invariant
                i <= mods_evdev.len(),
                mods@ == mods_evdev@.take(i as int),
            decreases mods_evdev.len() - i,
        {
            mods.push(mods_evdev[i]);
            assert(mods@ =~= mods_evdev@.take(i + 1));
            i += 1;
        }
        assert(mods@ =~= mods_evdev@);
        self.ask(CtxAction::Chord { mods, key: key_evdev });
    }

    /// Open or close the overview on an output.
    pub fn toggle_overview(&mut self, out: OutputId)
        ensures
            old(self).asking(*final(self), CtxActionView::ToggleOverview(out)),
    {
        self.ask(CtxAction::ToggleOverview(out));
    }

    /// Hide the on-screen keyboard.
    pub fn hide_osk(&mut self)
        ensures
            old(self).asking(*final(self), CtxActionView::HideOsk),
    {
        self.ask(CtxAction::HideOsk);
    }

    fn ask(&mut self, a: CtxAction)
        ensures
            old(self).asking(*final(self), a@),
    {
        let ghost before = self.asked();
        self.actions.push(a);
        assert(self.asked() =~= before.push(a@));
    }
}

} // verus!
