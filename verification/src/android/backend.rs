//! What the Android runner can do.

use vstd::prelude::*;

use crate::proto::wire::Capability;

verus! {

/// The runner of an Android device.
#[derive(Debug, Clone, Copy)]
pub struct AndroidBackend;

/// What the Android runner can do: shell, capture, input and the tree of the
/// screen.
pub open spec fn android_surface() -> Seq<Capability> {
    seq![
        Capability::RunCommand,
        Capability::RunScript,
        Capability::Screenshot,
        Capability::OpenApp,
        Capability::ListWindows,
        Capability::ListElements,
        Capability::FindElements,
        Capability::Click,
        Capability::TypeText,
        Capability::KeyChord,
        Capability::Mouse,
        Capability::ListProcesses,
        Capability::KillProcess,
        Capability::Identity,
        Capability::ActivateWindow,
        Capability::ReadElement,
        Capability::SetValue,
        Capability::FocusElement,
    ]
}

impl AndroidBackend {
    /// What the runner can do.
    pub fn capabilities(&self) -> (r: Vec<Capability>)
        ensures
            r@ == android_surface(),
    {
        vec![
            Capability::RunCommand,
            Capability::RunScript,
            Capability::Screenshot,
            Capability::OpenApp,
            Capability::ListWindows,
            Capability::ListElements,
            Capability::FindElements,
            Capability::Click,
            Capability::TypeText,
            Capability::KeyChord,
            Capability::Mouse,
            Capability::ListProcesses,
            Capability::KillProcess,
            Capability::Identity,
            Capability::ActivateWindow,
            Capability::ReadElement,
            Capability::SetValue,
            Capability::FocusElement,
        ]
    }
}

/// The Android runner lists each of its capabilities once. Of what a runner may be
/// able to do, it lacks detached commands, dumps of processes, the clipboard,
/// files and forwarded ports.
pub proof fn law_capabilities_are_listed_once(backend: AndroidBackend, r: Vec<Capability>)
    requires
        call_ensures(AndroidBackend::capabilities, (&backend,), r),
    ensures
        forall|i: int, k: int| 0 <= i < k < r@.len() ==> r@[i] != r@[k],
        forall|c: Capability|
            !(#[trigger] r@.contains(c)) <==> c is RunDetached || c is ProcDump || c is ClipboardGet
                || c is ClipboardSet || c is ReadFile || c is WriteFile || c is HashFiles
                || c is ListTree || c is DeleteFile || c is Forward || c is Unknown,
{
    assert forall|c: Capability|
        !(#[trigger] r@.contains(c)) <==> c is RunDetached || c is ProcDump || c is ClipboardGet
            || c is ClipboardSet || c is ReadFile || c is WriteFile || c is HashFiles
            || c is ListTree || c is DeleteFile || c is Forward || c is Unknown by {
        let k = match c {
            Capability::RunCommand => 0int,
            Capability::RunScript => 1,
            Capability::Screenshot => 2,
            Capability::OpenApp => 3,
            Capability::ListWindows => 4,
            Capability::ListElements => 5,
            Capability::FindElements => 6,
            Capability::Click => 7,
            Capability::TypeText => 8,
            Capability::KeyChord => 9,
            Capability::Mouse => 10,
            Capability::ListProcesses => 11,
            Capability::KillProcess => 12,
            Capability::Identity => 13,
            Capability::ActivateWindow => 14,
            Capability::ReadElement => 15,
            Capability::SetValue => 16,
            Capability::FocusElement => 17,
            _ => 0,
        };
        assert(r@.len() == 18);
        if r@[k] == c {
            assert(r@.contains(c));
        } else if r@.contains(c) {
            let j = choose|j: int| 0 <= j < r@.len() && r@[j] == c;
            assert(r@[j] != c);
        }
    }
}

} // verus!
