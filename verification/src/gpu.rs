//! The GPU enumerator: one parsing strategy per platform over the text
//! output of the native listing tool, with a shared placeholder fallback.
//!
//! A failed or unparsable listing never becomes an error: enumeration
//! degrades to `["unknown"]` instead, and an empty parse result is
//! normalized to the same placeholder so the inventory is never empty.

use vstd::prelude::*;

use crate::placeholders::UNKNOWN_GPU;

use crate::text::{
    contains_ci, contains_ci_str, find_pair, first_pair_at, leading_spaces, lemma_leading_spaces,
    lines_of, match_at, split_lines, starts_with_at, trim_spec, trimmed, views_of,
};

verus! {

/// The parsing strategy, selected once from the platform identifier.
#[derive(Debug, Clone, Copy, PartialEq, Eq, Structural)]
pub enum GpuPlatform {
    Linux,
    Windows,
    MacOs,
    Generic,
}

/// The strategy chosen for a platform identifier.
pub open spec fn platform_spec(os: Seq<char>) -> GpuPlatform {
    if os == "linux"@ {
        GpuPlatform::Linux
    } else if os == "windows"@ {
        GpuPlatform::Windows
    } else if os == "macos"@ {
        GpuPlatform::MacOs
    } else {
        GpuPlatform::Generic
    }
}

/// Select the parsing strategy for a platform identifier.
pub fn platform_of(os: &str) -> (r: GpuPlatform)
    ensures
        r == platform_spec(os@),
{
    if crate::text::str_eq(os, "linux") {
        GpuPlatform::Linux
    } else if crate::text::str_eq(os, "windows") {
        GpuPlatform::Windows
    } else if crate::text::str_eq(os, "macos") {
        GpuPlatform::MacOs
    } else {
        GpuPlatform::Generic
    }
}

/// The device description a PCI listing line yields: for a line that
/// holds "vga" or "3d" in any case, the text after the first `": "`,
/// trimmed; other lines yield nothing.
pub open spec fn lspci_line_name(l: Seq<char>) -> Option<Seq<char>> {
    if contains_ci(l, "vga"@) || contains_ci(l, "3d"@) {
        let p = first_pair_at(l, ':', ' ');
        if p + 2 <= l.len() {
            Some(trim_spec(l.subrange(p + 2, l.len() as int)))
        } else {
            None
        }
    } else {
        None
    }
}

/// The names the Linux strategy parses out of a PCI listing.
pub open spec fn lspci_names(lines: Seq<Seq<char>>) -> Seq<Seq<char>>
    decreases lines.len(),
{
    if lines.len() == 0 {
        Seq::empty()
    } else {
        let rest = lspci_names(lines.drop_first());
        match lspci_line_name(lines[0]) {
            Some(name) => seq![name] + rest,
            None => rest,
        }
    }
}

proof fn lemma_lspci_names_push(lines: Seq<Seq<char>>, l: Seq<char>)
    ensures
        lspci_names(lines.push(l)) =~= lspci_names(lines) + match lspci_line_name(l) {
            Some(name) => seq![name],
            None => Seq::empty(),
        },
    decreases lines.len(),
{
    reveal_with_fuel(lspci_names, 3);
    if lines.len() == 0 {
        assert(lines.push(l)[0] == l);
        assert(lines.push(l).drop_first() =~= Seq::<Seq<char>>::empty());
    } else {
        lemma_lspci_names_push(lines.drop_first(), l);
        assert(lines.push(l)[0] == lines[0]);
        assert(lines.push(l).drop_first() =~= lines.drop_first().push(l));
    }
}

/// Parse a PCI listing: scan lines case-insensitively for "vga" or
/// "3d" and take the trimmed text after the first `": "` of each match.
pub fn parse_lspci(listing: &str) -> (r: Vec<String>)
    ensures
        views_of(r@) == lspci_names(lines_of(listing@)),
{
    let lines = split_lines(listing);
    let ghost line_views = views_of(lines@);
    let mut r: Vec<String> = Vec::new();
    let mut i: usize = 0;
    proof {
        assert(views_of(r@) =~= lspci_names(line_views.subrange(0, 0)));
    }
    while i < lines.len()
        invariant
            0 <= i <= lines@.len(),
            line_views == views_of(lines@),
            views_of(r@) == lspci_names(line_views.subrange(0, i as int)),
        decreases lines@.len() - i,
    {
        let line: &String = &lines[i];
        let ghost done = r@;
        let l = line.as_str();
        if contains_ci_str(l, "vga") || contains_ci_str(l, "3d") {
            let n = l.unicode_len();
            let p = find_pair(l, ':', ' ');
            proof {
                crate::text::lemma_first_pair_at(l@, ':', ' ');
            }
            if p <= n && n - p >= 2 {
                let tail = l.substring_char(p + 2, n);
                let name = trimmed(tail);
                proof {
                    assert(tail@ =~= l@.subrange(p + 2, l@.len() as int));
                }
                r.push(name);
                proof {
                    crate::text::lemma_views_of_push(done, name);
                }
            }
        }
        proof {
            let prefix = line_views.subrange(0, i as int);
            lemma_lspci_names_push(prefix, line_views[i as int]);
            assert(line_views.subrange(0, i + 1) =~= prefix.push(line_views[i as int]));
            assert(line_views[i as int] == lines@[i as int]@);
            assert(views_of(r@) =~= lspci_names(line_views.subrange(0, i + 1)));
        }
        i += 1;
    }
    proof {
        assert(line_views.subrange(0, line_views.len() as int) =~= line_views);
    }
    r
}

/// The name a management-interface listing line yields once the two
/// header lines are gone: the line trimmed, kept only when non-empty.
pub open spec fn wmi_line_name(l: Seq<char>) -> Option<Seq<char>> {
    if trim_spec(l).len() > 0 {
        Some(trim_spec(l))
    } else {
        None
    }
}

/// The trimmed non-empty lines of `lines`.
pub open spec fn wmi_body_names(lines: Seq<Seq<char>>) -> Seq<Seq<char>>
    decreases lines.len(),
{
    if lines.len() == 0 {
        Seq::empty()
    } else {
        let rest = wmi_body_names(lines.drop_first());
        match wmi_line_name(lines[0]) {
            Some(name) => seq![name] + rest,
            None => rest,
        }
    }
}

/// The names the Windows strategy parses out of a video-controller
/// listing: the first two header lines skipped, the rest trimmed, empty
/// lines dropped.
pub open spec fn wmi_names(lines: Seq<Seq<char>>) -> Seq<Seq<char>> {
    if lines.len() <= 2 {
        Seq::empty()
    } else {
        wmi_body_names(lines.subrange(2, lines.len() as int))
    }
}

proof fn lemma_wmi_body_names_push(lines: Seq<Seq<char>>, l: Seq<char>)
    ensures
        wmi_body_names(lines.push(l)) =~= wmi_body_names(lines) + match wmi_line_name(l) {
            Some(name) => seq![name],
            None => Seq::empty(),
        },
    decreases lines.len(),
{
    reveal_with_fuel(wmi_body_names, 3);
    if lines.len() == 0 {
        assert(lines.push(l)[0] == l);
        assert(lines.push(l).drop_first() =~= Seq::<Seq<char>>::empty());
    } else {
        lemma_wmi_body_names_push(lines.drop_first(), l);
        assert(lines.push(l)[0] == lines[0]);
        assert(lines.push(l).drop_first() =~= lines.drop_first().push(l));
    }
}

/// Parse a video-controller listing: skip the two header lines, trim
/// the rest, and keep the non-empty names verbatim.
pub fn parse_wmi(listing: &str) -> (r: Vec<String>)
    ensures
        views_of(r@) == wmi_names(lines_of(listing@)),
{
    let lines = split_lines(listing);
    let ghost line_views = views_of(lines@);
    let mut r: Vec<String> = Vec::new();
    if lines.len() <= 2 {
        proof {
            assert(views_of(r@) =~= Seq::<Seq<char>>::empty());
        }
        return r;
    }
    let mut i: usize = 2;
    proof {
        assert(views_of(r@) =~= wmi_body_names(line_views.subrange(2, 2)));
    }
    while i < lines.len()
        invariant
            2 <= i <= lines@.len(),
            line_views == views_of(lines@),
            views_of(r@) == wmi_body_names(line_views.subrange(2, i as int)),
        decreases lines@.len() - i,
    {
        let line: &String = &lines[i];
        let ghost done = r@;
        let name = trimmed(line.as_str());
        if name.unicode_len() > 0 {
            r.push(name);
            proof {
                crate::text::lemma_views_of_push(done, name);
            }
        }
        proof {
            let prefix = line_views.subrange(2, i as int);
            lemma_wmi_body_names_push(prefix, line_views[i as int]);
            assert(line_views.subrange(2, i + 1) =~= prefix.push(line_views[i as int]));
            assert(line_views[i as int] == lines@[i as int]@);
            assert(views_of(r@) =~= wmi_body_names(line_views.subrange(2, i + 1)));
        }
        i += 1;
    }
    proof {
        assert(line_views.subrange(2, line_views.len() as int) =~= line_views.subrange(
            2,
            lines@.len() as int,
        ));
    }
    r
}

/// The name a hardware-profiler line yields: for a line whose trimmed
/// start is "Chipset Model:", the text after that label, trimmed; other
/// lines yield nothing.
pub open spec fn profiler_line_name(l: Seq<char>) -> Option<Seq<char>> {
    let k = leading_spaces(l);
    if match_at(l, "Chipset Model:"@, k) {
        Some(trim_spec(l.subrange(k + "Chipset Model:"@.len(), l.len() as int)))
    } else {
        None
    }
}

/// The names the macOS strategy parses out of a display-data profile.
pub open spec fn profiler_names(lines: Seq<Seq<char>>) -> Seq<Seq<char>>
    decreases lines.len(),
{
    if lines.len() == 0 {
        Seq::empty()
    } else {
        let rest = profiler_names(lines.drop_first());
        match profiler_line_name(lines[0]) {
            Some(name) => seq![name] + rest,
            None => rest,
        }
    }
}

proof fn lemma_profiler_names_push(lines: Seq<Seq<char>>, l: Seq<char>)
    ensures
        profiler_names(lines.push(l)) =~= profiler_names(lines) + match profiler_line_name(l) {
            Some(name) => seq![name],
            None => Seq::empty(),
        },
    decreases lines.len(),
{
    reveal_with_fuel(profiler_names, 3);
    if lines.len() == 0 {
        assert(lines.push(l)[0] == l);
        assert(lines.push(l).drop_first() =~= Seq::<Seq<char>>::empty());
    } else {
        lemma_profiler_names_push(lines.drop_first(), l);
        assert(lines.push(l)[0] == lines[0]);
        assert(lines.push(l).drop_first() =~= lines.drop_first().push(l));
    }
}

/// Parse a display-data profile: keep lines whose trimmed start is
/// "Chipset Model:", strip that label, and trim what follows.
pub fn parse_profiler(listing: &str) -> (r: Vec<String>)
    ensures
        views_of(r@) == profiler_names(lines_of(listing@)),
{
    let lines = split_lines(listing);
    let ghost line_views = views_of(lines@);
    let mut r: Vec<String> = Vec::new();
    let mut i: usize = 0;
    proof {
        assert(views_of(r@) =~= profiler_names(line_views.subrange(0, 0)));
    }
    while i < lines.len()
        invariant
            0 <= i <= lines@.len(),
            line_views == views_of(lines@),
            views_of(r@) == profiler_names(line_views.subrange(0, i as int)),
        decreases lines@.len() - i,
    {
        let line: &String = &lines[i];
        let ghost done = r@;
        let l = line.as_str();
        let n = l.unicode_len();
        let label = "Chipset Model:";
        let m = label.unicode_len();
        let mut k: usize = 0;
        while k < n && crate::text::is_space_ch(l.get_char(k))
            invariant
                0 <= k <= n,
                n == l@.len(),
                forall|j: int| 0 <= j < k ==> crate::text::is_space(l@[j]),
            decreases n - k,
        {
            k += 1;
        }
        proof {
            lemma_leading_spaces(l@);
            let f = leading_spaces(l@);
            if f < k {
                assert(crate::text::is_space(l@[f]));
            }
            if f > k {
                assert(crate::text::is_space(l@[k as int]));
            }
            assert(k as int == f);
        }
        if starts_with_at(l, label, k) {
            let tail = l.substring_char(k + m, n);
            let name = trimmed(tail);
            proof {
                assert(tail@ =~= l@.subrange(k + label@.len(), l@.len() as int));
            }
            r.push(name);
            proof {
                crate::text::lemma_views_of_push(done, name);
            }
        }
        proof {
            let prefix = line_views.subrange(0, i as int);
            lemma_profiler_names_push(prefix, line_views[i as int]);
            assert(line_views.subrange(0, i + 1) =~= prefix.push(line_views[i as int]));
            assert(line_views[i as int] == lines@[i as int]@);
            assert(views_of(r@) =~= profiler_names(line_views.subrange(0, i + 1)));
        }
        i += 1;
    }
    proof {
        assert(line_views.subrange(0, line_views.len() as int) =~= line_views);
    }
    r
}

/// The view of an optional listing.
pub open spec fn listing_view(listing: Option<String>) -> Option<Seq<char>> {
    match listing {
        Some(s) => Some(s@),
        None => None,
    }
}

/// The GPU inventory a strategy yields from a listing: the parsed names,
/// with a failed listing or an empty parse normalized to `["unknown"]`.
pub open spec fn gpu_names_spec(platform: GpuPlatform, listing: Option<Seq<char>>) -> Seq<
    Seq<char>,
> {
    match listing {
        None => seq![UNKNOWN_GPU@],
        Some(text) => {
            let raw = match platform {
                GpuPlatform::Linux => lspci_names(lines_of(text)),
                GpuPlatform::Windows => wmi_names(lines_of(text)),
                GpuPlatform::MacOs => profiler_names(lines_of(text)),
                GpuPlatform::Generic => Seq::empty(),
            };
            if raw.len() == 0 {
                seq![UNKNOWN_GPU@]
            } else {
                raw
            }
        },
    }
}

/// Enumerate the display adapters out of the listing tool's output.
///
/// Exactly one strategy runs; a listing that could not be produced
/// (`None`) and a parse that yields nothing both give `["unknown"]`,
/// so the result is never empty.
pub fn get_gpus(platform: GpuPlatform, listing: &Option<String>) -> (r: Vec<String>)
    ensures
        views_of(r@) == gpu_names_spec(platform, listing_view(*listing)),
        r@.len() > 0,
{
    let parsed: Vec<String> = match listing {
        None => Vec::new(),
        Some(text) => {
            match platform {
                GpuPlatform::Linux => parse_lspci(text.as_str()),
                GpuPlatform::Windows => parse_wmi(text.as_str()),
                GpuPlatform::MacOs => parse_profiler(text.as_str()),
                GpuPlatform::Generic => Vec::new(),
            }
        },
    };
    if parsed.len() == 0 || matches!(listing, None) {
        let mut r: Vec<String> = Vec::new();
        r.push(String::from_str(UNKNOWN_GPU));
        proof {
            assert(views_of(r@) =~= seq![UNKNOWN_GPU@]);
        }
        r
    } else {
        proof {
            assert(views_of(parsed@).len() == parsed@.len());
        }
        parsed
    }
}

} // verus!
