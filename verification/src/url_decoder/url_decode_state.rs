//! The two states of the percent-decoder.
use vstd::prelude::*;

use crate::url_decoder::escaped_state::EscapedState;
use crate::url_decoder::normal_state::NormalState;

verus! {

/// Either passing bytes through, or collecting the digits of an escape.
pub enum UrlDecodeState {
    Normal(NormalState),
    Escaped(EscapedState),
}

} // verus!
