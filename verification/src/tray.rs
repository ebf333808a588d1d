//! The tray menu's entry that turns the automatic picks on and off.

use vstd::prelude::*;

verus! {

/// The label of the entry: what choosing it does.
pub open spec fn status_label_text(ready: bool) -> Seq<char> {
    if ready { "Desativar"@ } else { "Ativar"@ }
}

/// The label of the entry while the user is `ready`: `Desativar` (turn
/// off) while the picks are on, `Ativar` (turn on) while they are off.
pub fn status_label(ready: bool) -> (label: &'static str)
    ensures
        label@ == status_label_text(ready),
{
    if ready { "Desativar" } else { "Ativar" }
}

/// Whether the user is ready after choosing the entry: the opposite.
pub fn toggled(ready: bool) -> (now: bool)
    ensures
        now == !ready,
{
    !ready
}

} // verus!
