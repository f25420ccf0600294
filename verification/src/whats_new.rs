//! The release-notes dialog shown after an update.
//!
//! A button shows while the recorded last-seen version differs from the
//! running one. Only pressing Done in the dialog marks the running version
//! seen; closing it any other way leaves the button up. A fresh install has
//! no record and never shows the button.
use vstd::prelude::*;
use crate::panel::Padu;

verus! {

/// The open dialog: what had focus before it opened, to give focus back.
#[derive(Debug, PartialEq, Eq, Clone, Copy, Structural)]
pub struct WhatsNewDialog {
    pub previous_focus: Option<u64>,
}

/// Something the window does for the dialog.
#[derive(Debug, PartialEq, Eq, Clone, Copy)]
pub enum WhatsNewEffect {
    /// Focus the dialog's Done button now.
    FocusDone,
    /// Focus the dialog once it has been drawn, if it is still open then.
    FocusDialogWhenDrawn,
    /// Give focus back to what had it before the dialog opened.
    RestoreFocus(u64),
    /// Write the persisted state.
    Save,
    /// Draw the window again.
    Redraw,
}

/// Whether the button shows for the running `version`: a last-seen version
/// was recorded and it is another one.
pub open spec fn shows_whats_new(p: Padu, version: Seq<char>) -> bool {
    match p.last_seen_version {
        Some(seen) => seen@ != version,
        None => false,
    }
}

impl Padu {
    /// Whether the release-notes button shows for the running `version`.
    pub fn should_show_whats_new(&self, version: &str) -> (r: bool)
        ensures
            r == shows_whats_new(*self, version@),
    {
        match &self.last_seen_version {
            Some(seen) => {
                let same = crate::text::bytes_eq(seen.as_str().as_bytes(), version.as_bytes());
                proof {
                    if same {
                        crate::text::lemma_utf8_injective(seen@, version@);
                    }
                }
                !same
            },
            None => false,
        }
    }

    /// Opens the dialog, remembering what had focus (`focused`); when it is
    /// already open, focuses its Done button instead.
    pub fn open_whats_new(&mut self, focused: Option<u64>) -> (effects: Vec<WhatsNewEffect>)
        ensures
            old(self).whats_new is Some ==> *final(self) == *old(self) && effects@ == seq![
                WhatsNewEffect::FocusDone,
            ],
            old(self).whats_new is None ==> *final(self) == (Padu {
                whats_new: Some(WhatsNewDialog { previous_focus: focused }),
                ..*old(self)
            }) && effects@ == seq![WhatsNewEffect::FocusDialogWhenDrawn, WhatsNewEffect::Redraw],
    {
        let mut effects: Vec<WhatsNewEffect> = Vec::new();
        if self.whats_new.is_some() {
            effects.push(WhatsNewEffect::FocusDone);
            return effects;
        }
        self.whats_new = Some(WhatsNewDialog { previous_focus: focused });
        effects.push(WhatsNewEffect::FocusDialogWhenDrawn);
        effects.push(WhatsNewEffect::Redraw);
        effects
    }

    /// Closes the dialog without marking the version seen (the close
    /// button, the backdrop, Escape), giving focus back.
    pub fn close_whats_new(&mut self) -> (effects: Vec<WhatsNewEffect>)
        ensures
            *final(self) == (Padu { whats_new: None, ..*old(self) }),
            effects@ == match old(self).whats_new {
                Some(dialog) => match dialog.previous_focus {
                    Some(f) => seq![WhatsNewEffect::RestoreFocus(f), WhatsNewEffect::Redraw],
                    None => seq![WhatsNewEffect::Redraw],
                },
                None => seq![],
            },
    {
        let mut effects: Vec<WhatsNewEffect> = Vec::new();
        let dialog = match self.whats_new.take() {
            Some(dialog) => dialog,
            None => {
                return effects;
            },
        };
        if let Some(previous_focus) = dialog.previous_focus {
            effects.push(WhatsNewEffect::RestoreFocus(previous_focus));
        }
        effects.push(WhatsNewEffect::Redraw);
        effects
    }

    /// Closes the dialog with Done: marks the running `version` seen, saves,
    /// and gives focus back. Nothing happens when the dialog is not open.
    pub fn dismiss_whats_new(&mut self, version: &str) -> (effects: Vec<WhatsNewEffect>)
        ensures
            old(self).whats_new is None ==> *final(self) == *old(self) && effects@ == Seq::<
                WhatsNewEffect,
            >::empty(),
            old(self).whats_new is Some ==> {
                &&& final(self).whats_new is None
                &&& final(self).last_seen_version matches Some(v) && v@ == version@
                &&& *final(self) == (Padu {
                    whats_new: None,
                    last_seen_version: final(self).last_seen_version,
                    ..*old(self)
                })
                &&& effects@ == seq![WhatsNewEffect::Save] + match old(self).whats_new->0.previous_focus {
                    Some(f) => seq![WhatsNewEffect::RestoreFocus(f), WhatsNewEffect::Redraw],
                    None => seq![WhatsNewEffect::Redraw],
                }
            },
    {
        if self.whats_new.is_none() {
            return Vec::new();
        }
        self.last_seen_version = Some(version.to_owned());
        let mut effects: Vec<WhatsNewEffect> = Vec::new();
        effects.push(WhatsNewEffect::Save);
        let mut closing = self.close_whats_new();
        effects.append(&mut closing);
        effects
    }
}

/// The button hides for good only through Done: closing the dialog any
/// other way leaves whether it shows unchanged, and after Done it no longer
/// shows for that version. A fresh install, with no version recorded, never
/// shows it.
pub proof fn law_only_done_marks_seen(before: Padu, closed: Padu, done: Padu, version: Seq<char>)
    requires
        closed == (Padu { whats_new: None, ..before }),
        before.whats_new is Some,
        done.last_seen_version matches Some(v) && v@ == version,
    ensures
        shows_whats_new(closed, version) == shows_whats_new(before, version),
        !shows_whats_new(done, version),
        before.last_seen_version is None ==> !shows_whats_new(before, version),
{
}

} // verus!
