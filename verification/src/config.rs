//! Per-kind configuration, loaded once at startup and immutable for the
//! rest of the process: whether a kind is in rotation, its channel
//! credential, and its optional decoration and overlay output.

use vstd::prelude::*;

verus! {

/// Configuration of one metric kind: its enable flag, the identity used to
/// connect its presence channel, an optional decorative image key, and an
/// optional path an overlay rendering is written to.
pub struct MetricConfig {
    pub enabled: bool,
    pub channel_id: u64,
    pub image_key: Option<String>,
    pub overlay_path: Option<String>,
}

/// The per-kind enabled flags of a configuration set, in kind order.
pub fn enabled_flags(configs: &Vec<MetricConfig>) -> (r: Vec<bool>)
    ensures
        r@.len() == configs@.len(),
        forall|i: int| 0 <= i < configs@.len() ==> r@[i] == configs@[i].enabled,
{
    let mut flags: Vec<bool> = Vec::new();
    let mut i: usize = 0;
    while i < configs.len()
        invariant
            i <= configs@.len(),
            flags@.len() == i,
            forall|t: int| 0 <= t < i ==> flags@[t] == configs@[t].enabled,
        decreases configs@.len() - i,
    {
        flags.push(configs[i].enabled);
        i = i + 1;
    }
    flags
}

} // verus!
