//! Entries of the remote catalog.

use vstd::prelude::*;
use vstd::string::{StrSliceExecFns, StringExecFns};
use crate::rsync::lock::LockMeta;

verus! {

/// One entry of a scanned catalog page.
#[derive(Debug, PartialEq, Eq)]
pub struct SkinMeta {
    /// URL of the image.
    pub origin: String,
    /// Name of the skin: the file name without its extension.
    pub name: String,
    /// Last-modified marker, as the catalog printed it.
    pub ita: String,
}

/// The mathematical value of a `SkinMeta`.
pub struct SkinMetaView {
    pub origin: Seq<char>,
    pub name: Seq<char>,
    pub ita: Seq<char>,
}

impl View for SkinMeta {
    type V = SkinMetaView;

    open spec fn view(&self) -> SkinMetaView {
        SkinMetaView { origin: self.origin@, name: self.name@, ita: self.ita@ }
    }
}

impl Clone for SkinMeta {
    fn clone(&self) -> (r: Self)
        ensures
            r@ == self@,
    {
        SkinMeta { origin: self.origin.clone(), name: self.name.clone(), ita: self.ita.clone() }
    }
}

/// The values of a list of catalog entries, in order.
pub open spec fn skin_views(skins: Seq<SkinMeta>) -> Seq<SkinMetaView> {
    skins.map_values(|s: SkinMeta| s@)
}

impl SkinMetaView {
    /// A catalog entry and a stored record agree when marker and origin are the same.
    pub open spec fn matches(self, meta: crate::rsync::lock::LockMetaView) -> bool {
        self.ita == meta.ita && self.origin == meta.origin
    }
}

impl SkinMeta {
    /// Whether the stored record is still current for this catalog entry.
    pub fn eq_lock_meta(&self, meta: &LockMeta) -> (r: bool)
        ensures
            r == self@.matches(meta@),
    {
        self.ita == meta.ita && self.origin == meta.origin
    }
}

/// What a line of a catalog page looks like: a link to a `.png` file in the
/// same directory, then the date and time of its last change.
pub const LISTING_PATTERN: &'static str =
    r#"<a href="([^"/]+\.png)">[^<]+</a>\s+(\d{2}-[A-Za-z]{3}-\d{4}\s+\d{2}:\d{2})"#;

/// Length of the extension that a file name loses to become a skin name.
pub const EXTENSION_LEN: usize = 4;

/// The successive matches of `pattern` in `text`, each with the text of its
/// groups (the whole match first; `None` for a group that took no part), or
/// `None` where `pattern` is no regular expression.
pub uninterp spec fn regex_captures(pattern: Seq<char>, text: Seq<char>) -> Option<
    Seq<Seq<Option<Seq<char>>>>,
>;

/// The value of one group of a match.
pub open spec fn group_view(group: Option<String>) -> Option<Seq<char>> {
    match group {
        Some(text) => Some(text@),
        None => None,
    }
}

/// The value of one match: its groups, in order.
pub open spec fn row_view(row: Vec<Option<String>>) -> Seq<Option<Seq<char>>> {
    row@.map_values(|g: Option<String>| group_view(g))
}

/// The values of a list of matches, in order.
pub open spec fn row_views(rows: Seq<Vec<Option<String>>>) -> Seq<Seq<Option<Seq<char>>>> {
    rows.map_values(|r: Vec<Option<String>>| row_view(r))
}

/// `Regex::new`, then `Regex::captures_iter`: compiles `pattern` and walks
/// the matches in `text`, leftmost first and without overlap. What comes back
/// is what the crate finds, under the name `regex_captures`.
#[verifier::external_body]
fn captures_of(pattern: &str, text: &str) -> (r: Option<Vec<Vec<Option<String>>>>)
    ensures
        r is Some == regex_captures(pattern@, text@) is Some,
        r matches Some(rows) ==> regex_captures(pattern@, text@) == Some(row_views(rows@)),
{
    regex::Regex::new(pattern).ok().map(
        |re|
            re.captures_iter(text).map(
                |caps| caps.iter().map(|g| g.map(|m| m.as_str().to_string())).collect(),
            ).collect(),
    )
}

/// The catalog entry that one match gives: the first group is the file
/// name, the second the marker. The origin is the page's URL followed by the
/// file name, the skin's name the file name without its extension. A match
/// that lacks a group, or whose file name is no longer than the extension,
/// gives nothing.
pub open spec fn meta_of_row(url: Seq<char>, row: Seq<Option<Seq<char>>>) -> Option<SkinMetaView> {
    if row.len() >= 3 && row[1] is Some && row[2] is Some && row[1]->0.len() >= EXTENSION_LEN {
        let file = row[1]->0;
        Some(
            SkinMetaView {
                origin: url + file,
                name: file.take(file.len() - EXTENSION_LEN),
                ita: row[2]->0,
            },
        )
    } else {
        None
    }
}

/// `meta_of_row` for the page at `url`, as a function on matches.
pub open spec fn entry_at(url: Seq<char>) -> spec_fn(Seq<Option<Seq<char>>>) -> Option<SkinMetaView> {
    |row: Seq<Option<Seq<char>>>| meta_of_row(url, row)
}

/// The catalog entries that a list of matches gives, in order.
pub open spec fn metas_of(url: Seq<char>, rows: Seq<Seq<Option<Seq<char>>>>) -> Seq<SkinMetaView> {
    rows.filter_map(entry_at(url))
}

/// The catalog entry of one match of the listing pattern, if it gives one.
pub fn meta_from_captures(url: &str, row: &Vec<Option<String>>) -> (r: Option<SkinMeta>)
    ensures
        r is Some == meta_of_row(url@, row_view(*row)) is Some,
        r matches Some(meta) ==> Some(meta@) == meta_of_row(url@, row_view(*row)),
{
    if row.len() < 3 {
        return None;
    }
    assert(row_view(*row)[1] == group_view(row@[1]));
    assert(row_view(*row)[2] == group_view(row@[2]));
    match (&row[1], &row[2]) {
        (Some(file), Some(marker)) => {
            let len = file.as_str().unicode_len();
            if len < EXTENSION_LEN {
                return None;
            }
            let stem = file.as_str().substring_char(0, len - EXTENSION_LEN);
            assert(file@.take(len - EXTENSION_LEN) =~= file@.subrange(0, len - EXTENSION_LEN));
            Some(
                SkinMeta {
                    origin: String::from_str(url).concat(file.as_str()),
                    name: String::from_str(stem),
                    ita: marker.clone(),
                },
            )
        },
        _ => None,
    }
}

/// The catalog entries of a list of matches of the listing pattern, in
/// order. Matches that give no entry are passed over.
pub fn metas_from_captures(url: &str, rows: &[Vec<Option<String>>]) -> (r: Vec<SkinMeta>)
    ensures
        skin_views(r@) == metas_of(url@, row_views(rows@)),
{
    let mut out: Vec<SkinMeta> = Vec::new();
    let ghost all = row_views(rows@);
    let mut i: usize = 0;
    proof {
        assert(all.take(0).filter_map(entry_at(url@)) =~= Seq::<SkinMetaView>::empty());
        assert(skin_views(out@) =~= Seq::<SkinMetaView>::empty());
    }
    while i < rows.len()
        invariant
            i <= rows.len(),
            all == row_views(rows@),
            skin_views(out@) == metas_of(url@, all.take(i as int)),
        decreases rows.len() - i,
    {
        let ghost before = skin_views(out@);
        let found = meta_from_captures(url, &rows[i]);
        proof {
            all.lemma_filter_map_take_succ(entry_at(url@), i as int);
            assert(all[i as int] == row_view(rows@[i as int]));
        }
        if let Some(meta) = found {
            out.push(meta);
            proof {
                assert(skin_views(out@) =~= before.push(meta@));
                assert(before.push(meta@) =~= before + seq![meta@]);
            }
        } else {
            proof {
                assert(before + Seq::<SkinMetaView>::empty() =~= before);
            }
        }
        i += 1;
    }
    proof {
        assert(all.take(i as int) =~= all);
    }
    out
}

/// What a catalog page lists: the entries of the matches of the listing
/// pattern in `text`, in the order of the page, for the page at `url`.
pub open spec fn listed(url: Seq<char>, text: Seq<char>) -> Seq<SkinMetaView> {
    match regex_captures(LISTING_PATTERN@, text) {
        Some(rows) => metas_of(url, rows),
        None => Seq::empty(),
    }
}

/// Scans the text of the catalog page at `url`. Text that does not match is
/// passed over: a page without matches gives no entry, and no page is an
/// error.
pub fn parse_skin_list(url: &str, text: &str) -> (r: Vec<SkinMeta>)
    ensures
        skin_views(r@) == listed(url@, text@),
{
    match captures_of(LISTING_PATTERN, text) {
        Some(rows) => metas_from_captures(url, rows.as_slice()),
        None => {
            let none: Vec<SkinMeta> = Vec::new();
            assert(skin_views(none@) =~= Seq::<SkinMetaView>::empty());
            none
        },
    }
}

} // verus!
