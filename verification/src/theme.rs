//! Profile-specific styling class strings for the user interface.
//!
//! Pure presentation helpers: each maps a player profile to a fixed
//! style class list.

use vstd::prelude::*;

verus! {

/// The player profile a screen is themed for.
#[derive(Clone, Copy, Debug, PartialEq, Eq, Structural)]
pub enum Profile {
    Pirate,
    Trader,
    Miner,
    Plain,
}

/// Style classes for this element under a profile.
pub fn btn_primary(profile: Profile) -> &'static str {
    match profile {
        Profile::Pirate => "rounded-lg bg-[#3b1712] px-4 py-2 text-sm font-semibold text-[#ff9900] border border-[#5c2a1f] hover:bg-[#4a1f18] drake-glow",
        Profile::Trader => "rounded-lg bg-sky-500 px-4 py-2 text-sm font-semibold text-white hover:bg-sky-400",
        Profile::Miner => "rounded-lg bg-orange-500 px-4 py-2 text-sm font-semibold text-white hover:bg-orange-400",
        Profile::Plain => "rounded-lg bg-indigo-500 px-4 py-2 text-sm font-semibold text-white hover:bg-indigo-400",
    }
}

/// Style classes for this element under a profile.
pub fn btn_active(profile: Profile) -> &'static str {
    match profile {
        Profile::Pirate => "rounded-lg px-5 py-2.5 text-sm font-semibold bg-[#3b1712] text-[#ff9900] border border-[#5c2a1f] drake-glow drake-flicker",
        Profile::Trader => "rounded-lg px-5 py-2.5 text-sm font-semibold bg-sky-500/20 text-sky-300 border border-sky-500/40 misc-glow",
        Profile::Miner => "rounded-lg px-5 py-2.5 text-sm font-semibold bg-orange-500/20 text-orange-300 border border-orange-500/40 argo-glow",
        Profile::Plain => "rounded-lg px-5 py-2.5 text-sm font-semibold bg-indigo-500/20 text-indigo-300 border border-indigo-500/40",
    }
}

/// Style classes for this element under a profile.
pub fn btn_inactive(profile: Profile) -> &'static str {
    match profile {
        Profile::Pirate => "rounded-lg px-5 py-2.5 text-sm text-[#d4523a]/70 border border-[#3b1712] hover:border-[#5c2a1f] hover:text-[#ff9900]",
        Profile::Trader => "rounded-lg px-5 py-2.5 text-sm text-slate-400 border border-slate-700 hover:border-sky-600 hover:text-sky-300",
        Profile::Miner => "rounded-lg px-5 py-2.5 text-sm text-slate-400 border border-slate-700 hover:border-orange-600 hover:text-orange-300",
        Profile::Plain => "rounded-lg px-5 py-2.5 text-sm text-slate-400 border border-slate-700 hover:border-slate-600",
    }
}

/// Style classes for this element under a profile.
pub fn btn_small_active(profile: Profile) -> &'static str {
    match profile {
        Profile::Pirate => "rounded px-2 py-1 text-xs font-semibold bg-[#3b1712] text-[#ff9900] border border-[#5c2a1f]",
        Profile::Trader => "rounded px-2 py-1 text-xs font-semibold bg-sky-500/20 text-sky-300 border border-sky-500/40",
        Profile::Miner => "rounded px-2 py-1 text-xs font-semibold bg-orange-500/20 text-orange-300 border border-orange-500/40",
        Profile::Plain => "rounded px-2 py-1 text-xs font-semibold bg-indigo-500/20 text-indigo-300 border border-indigo-500/40",
    }
}

/// Style classes for this element under a profile.
pub fn btn_small_inactive(profile: Profile) -> &'static str {
    match profile {
        Profile::Pirate => "rounded px-2 py-1 text-xs text-[#d4523a]/60 border border-[#3b1712] hover:border-[#5c2a1f] hover:text-[#ff9900]",
        Profile::Trader => "rounded px-2 py-1 text-xs text-slate-500 border border-slate-700 hover:border-sky-600 hover:text-sky-300",
        Profile::Miner => "rounded px-2 py-1 text-xs text-slate-500 border border-slate-700 hover:border-orange-600 hover:text-orange-300",
        Profile::Plain => "rounded px-2 py-1 text-xs text-slate-500 border border-slate-700 hover:border-slate-600 hover:text-slate-300",
    }
}

/// Style classes for this element under a profile.
pub fn input_class(profile: Profile) -> &'static str {
    match profile {
        Profile::Pirate => "rounded-lg border border-[#3b1712] bg-[#1a0a08] px-4 py-2.5 text-sm text-[#d4523a] focus:border-[#ff9900] focus:outline-none",
        Profile::Trader => "rounded-lg border border-slate-700 bg-slate-950 px-4 py-2.5 text-sm text-slate-100 focus:border-sky-500 focus:outline-none",
        Profile::Miner => "rounded-lg border border-slate-700 bg-slate-950 px-4 py-2.5 text-sm text-slate-100 focus:border-orange-500 focus:outline-none",
        Profile::Plain => "rounded-lg border border-slate-700 bg-slate-950 px-4 py-2.5 text-sm text-slate-100 focus:border-indigo-500 focus:outline-none",
    }
}

/// Style classes for this element under a profile.
pub fn input_small(profile: Profile) -> &'static str {
    match profile {
        Profile::Pirate => "rounded-lg border border-[#3b1712] bg-[#1a0a08] px-3 py-2 text-sm text-[#d4523a] focus:border-[#ff9900] focus:outline-none",
        Profile::Trader => "rounded-lg border border-slate-700 bg-slate-950 px-3 py-2 text-sm text-slate-100 focus:border-sky-500 focus:outline-none",
        Profile::Miner => "rounded-lg border border-slate-700 bg-slate-950 px-3 py-2 text-sm text-slate-100 focus:border-orange-500 focus:outline-none",
        Profile::Plain => "rounded-lg border border-slate-700 bg-slate-950 px-3 py-2 text-sm text-slate-100 focus:border-indigo-500 focus:outline-none",
    }
}

/// Style classes for this element under a profile.
pub fn panel_border(profile: Profile) -> &'static str {
    match profile {
        Profile::Pirate => "rounded-xl border border-[#5c2a1f] bg-[#3b1712]/40",
        Profile::Trader => "rounded-xl border border-sky-800/50 bg-slate-900/40",
        Profile::Miner => "rounded-xl border border-orange-800/50 bg-slate-900/40",
        Profile::Plain => "rounded-xl border border-slate-800 bg-slate-900/40",
    }
}

/// Style classes for this element under a profile.
pub fn panel_solid(profile: Profile) -> &'static str {
    match profile {
        Profile::Pirate => "rounded-xl border border-[#3b1712] bg-[#1a0a08]/60",
        Profile::Trader => "rounded-xl border border-slate-800 bg-slate-900/40",
        Profile::Miner => "rounded-xl border border-slate-800 bg-slate-900/40",
        Profile::Plain => "rounded-xl border border-slate-800 bg-slate-900/40",
    }
}

/// Style classes for this element under a profile.
pub fn table_container(profile: Profile) -> &'static str {
    match profile {
        Profile::Pirate => "rounded-xl border border-[#3b1712] bg-[#1a0a08]/60 overflow-hidden",
        Profile::Trader => "rounded-xl border border-sky-900/40 bg-slate-900/40 overflow-hidden",
        Profile::Miner => "rounded-xl border border-orange-900/40 bg-slate-900/40 overflow-hidden",
        Profile::Plain => "rounded-xl border border-slate-800 bg-slate-900/40 overflow-hidden",
    }
}

/// Style classes for this element under a profile.
pub fn table_header(profile: Profile) -> &'static str {
    match profile {
        Profile::Pirate => "border-b border-[#3b1712] bg-[#3b1712]/50 text-xs uppercase text-[#d4523a]/80",
        Profile::Trader => "border-b border-sky-900/40 bg-sky-950/30 text-xs uppercase text-sky-400/70",
        Profile::Miner => "border-b border-orange-900/40 bg-orange-950/30 text-xs uppercase text-orange-400/70",
        Profile::Plain => "border-b border-slate-800 bg-slate-900/60 text-xs uppercase text-slate-500",
    }
}

/// Style classes for this element under a profile.
pub fn table_divider(profile: Profile) -> &'static str {
    match profile {
        Profile::Pirate => "divide-y divide-[#3b1712]/60",
        Profile::Trader => "divide-y divide-sky-900/30",
        Profile::Miner => "divide-y divide-orange-900/30",
        Profile::Plain => "divide-y divide-slate-800",
    }
}

/// Style classes for this element under a profile.
pub fn text_primary(profile: Profile) -> &'static str {
    match profile {
        Profile::Pirate => "text-[#ff9900]",
        Profile::Trader => "text-sky-300",
        Profile::Miner => "text-orange-300",
        Profile::Plain => "text-indigo-300",
    }
}

/// Style classes for this element under a profile.
pub fn text_secondary(profile: Profile) -> &'static str {
    match profile {
        Profile::Pirate => "text-[#d4523a]",
        Profile::Trader => "text-slate-300",
        Profile::Miner => "text-slate-300",
        Profile::Plain => "text-slate-300",
    }
}

/// Style classes for this element under a profile.
pub fn text_muted(profile: Profile) -> &'static str {
    match profile {
        Profile::Pirate => "text-[#d4523a]/60",
        Profile::Trader => "text-slate-500",
        Profile::Miner => "text-slate-500",
        Profile::Plain => "text-slate-500",
    }
}

/// Style classes for this element under a profile.
pub fn label_class(profile: Profile) -> &'static str {
    match profile {
        Profile::Pirate => "block text-xs font-semibold uppercase text-[#d4523a]/70",
        Profile::Trader => "block text-xs font-semibold uppercase text-slate-500",
        Profile::Miner => "block text-xs font-semibold uppercase text-slate-500",
        Profile::Plain => "block text-xs font-semibold uppercase text-slate-500",
    }
}

/// Style classes for this element under a profile.
pub fn accent_text(profile: Profile) -> &'static str {
    match profile {
        Profile::Pirate => "text-[#ff9900]",
        Profile::Trader => "text-emerald-400",
        Profile::Miner => "text-amber-400",
        Profile::Plain => "text-indigo-400",
    }
}

/// Style classes for this element under a profile.
pub fn link_class(profile: Profile) -> &'static str {
    match profile {
        Profile::Pirate => "text-xs font-semibold uppercase tracking-wide text-[#ff9900] hover:text-[#ff9900]/80",
        Profile::Trader => "text-xs font-semibold uppercase tracking-wide text-indigo-300 hover:text-indigo-100",
        Profile::Miner => "text-xs font-semibold uppercase tracking-wide text-orange-300 hover:text-orange-100",
        Profile::Plain => "text-xs font-semibold uppercase tracking-wide text-indigo-300 hover:text-indigo-100",
    }
}

} // verus!
