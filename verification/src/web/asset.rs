//! The stylesheet and scripts, linked and cached rather than inlined, which
//! re-sent tens of KB the browser already had with every full page.
//!
//! **The name is the content**: `/a/style.<hash>.css` cannot go stale, so it is
//! served `immutable`. The ways to get it wrong are serving a hash nobody wrote
//! (so a miss is a 404) and caching the page that links it (`no-cache`).
//!
//! The hash is git's blob id, git's name for "these exact bytes". There is no
//! bundle: a page links only the scripts it uses.

use vstd::prelude::*;

use crate::text::{chars_of, push_char, push_str, same};
use crate::web::layout;
use crate::web::page;
use crate::web::script;
use crate::web::theme;

verus! {

/// What `git2::Oid::hash_object` makes of some bytes as a blob: the twenty
/// bytes of git's object id, or `None` where libgit2 reports an error.
pub uninterp spec fn blob_hash(bytes: Seq<u8>) -> Option<Seq<u8>>;

/// `git2::Oid::hash_object` for a blob, as the id's raw bytes. The result is
/// named, not computed here: it is SHA-1 over git's object header and the
/// bytes. An id is twenty bytes (`Oid::as_bytes` hands out `GIT_OID_RAWSZ`).
#[verifier::external_body]
pub(crate) fn hash_blob(bytes: &[u8]) -> (r: Result<Vec<u8>, String>)
    ensures
        match blob_hash(bytes@) {
            Some(id) => r matches Ok(v) && v@ == id,
            None => r is Err,
        },
        r matches Ok(v) ==> v@.len() == 20,
{
    git2::Oid::hash_object(git2::ObjectType::Blob, bytes).map(|oid| oid.as_bytes().to_vec()).map_err(|e| e.message().to_owned())
}

#[derive(Clone, Copy, PartialEq, Eq, Debug, Structural)]
pub enum Asset {
    /// The whole of the layout, both themes included.
    Style,
    /// The listing's filter.
    Listing,
    /// The network screen's poll.
    Standing,
    /// The two panes.
    Panes,
    /// The margin note.
    Beside,
    /// Every stamp, in the reader's own zone.
    Stamps,
    /// The editor's ear on the note under it.
    Watching,
}

/// Every asset, in the order they are served.
pub open spec fn all() -> Seq<Asset> {
    seq![Asset::Style, Asset::Listing, Asset::Standing, Asset::Panes, Asset::Beside, Asset::Stamps,
        Asset::Watching]
}

pub fn every() -> (r: Vec<Asset>)
    ensures
        r@ == all(),
{
    let r = vec![Asset::Style, Asset::Listing, Asset::Standing, Asset::Panes, Asset::Beside,
        Asset::Stamps, Asset::Watching];
    assert(r@ =~= all());
    r
}

/// The readable stem of its address.
pub open spec fn asset_name(a: Asset) -> Seq<char> {
    match a {
        Asset::Style => "style"@,
        Asset::Listing => "listing"@,
        Asset::Standing => "standing"@,
        Asset::Panes => "panes"@,
        Asset::Beside => "beside"@,
        Asset::Stamps => "stamps"@,
        Asset::Watching => "watching"@,
    }
}

pub open spec fn is_css(a: Asset) -> bool {
    a == Asset::Style
}

/// Sent with `nosniff`, so it is all the browser will treat it as.
pub open spec fn asset_kind(a: Asset) -> Seq<char> {
    if is_css(a) {
        "text/css; charset=utf-8"@
    } else {
        "text/javascript; charset=utf-8"@
    }
}

/// What is served. Deterministic, which is what makes hashing it honest.
pub open spec fn asset_body(a: Asset) -> Seq<char> {
    match a {
        Asset::Style => theme::sheet() + layout::css(),
        Asset::Listing => script::LISTING@,
        Asset::Standing => script::STANDING@,
        Asset::Panes => script::PANES@,
        Asset::Beside => script::BESIDE@,
        Asset::Stamps => script::STAMPS@,
        Asset::Watching => script::WATCHING@,
    }
}

/// A lowercase hex digit.
pub open spec fn hex_lower(d: u8) -> char {
    if d < 10 {
        (48u8 + d) as char
    } else {
        (97u8 + d - 10) as char
    }
}

/// Bytes as lowercase hex, two digits each, as git writes an id.
pub open spec fn hex_of(b: Seq<u8>) -> Seq<char>
    decreases b.len(),
{
    if b.len() == 0 {
        Seq::empty()
    } else {
        hex_of(b.drop_last()) + seq![hex_lower(b.last() / 16), hex_lower(b.last() % 16)]
    }
}

/// Twelve hex digits of the git blob id: a cache key over a handful of
/// strings, not an identity.
pub open spec fn fingerprint_of(body: Seq<char>) -> Seq<char> {
    match blob_hash(crate::web::utf8(body)) {
        Some(id) => hex_of(id.subrange(0, 6)),
        None => "0000"@,
    }
}

/// `<name>.<hash>.<ext>`: the last segment of the address, which the route
/// matches.
pub open spec fn file_of(a: Asset) -> Seq<char> {
    asset_name(a) + "."@ + fingerprint_of(asset_body(a)) + "."@ + (if is_css(a) { "css"@ } else { "js"@ })
}

/// `/a/<name>.<hash>.<ext>`.
pub open spec fn href_of(a: Asset) -> Seq<char> {
    "/a/"@ + file_of(a)
}

/// `defer` in the head: runs after parsing (the scripts read the rows), in
/// the listed order, but downloads during it.
pub open spec fn tag_of(a: Asset) -> Seq<char> {
    if is_css(a) {
        "<link rel=\"stylesheet\" href=\""@ + href_of(a) + "\">"@
    } else {
        "<script src=\""@ + href_of(a) + "\" defer></script>"@
    }
}

fn hex_digit(d: u8) -> (c: char)
    requires
        d < 16,
    ensures
        c == hex_lower(d),
{
    if d < 10 {
        (48u8 + d) as char
    } else {
        (97u8 + d - 10) as char
    }
}

/// The twelve hex digits the address carries.
pub fn fingerprint(body: &str) -> (r: String)
    ensures
        r@ == fingerprint_of(body@),
{
    match hash_blob(body.as_bytes()) {
        Err(_) => crate::text::owned("0000"),
        Ok(id) => {
            let mut out = String::new();
            let mut i: usize = 0;
            while i < 6
                invariant
                    id@.len() == 20,
                    i <= 6,
                    out@ == hex_of(id@.subrange(0, i as int)),
                decreases 6 - i,
            {
                let b = id[i];
                push_char(&mut out, hex_digit(b / 16));
                push_char(&mut out, hex_digit(b % 16));
                i += 1;
                assert(id@.subrange(0, i as int).drop_last() =~= id@.subrange(0, i - 1));
            }
            out
        },
    }
}

/// An asset with its address worked out.
pub struct Held {
    /// `/a/<name>.<hash>.<ext>`.
    pub at: String,
    /// The last segment of `at`, which the route matches.
    pub file: String,
    pub body: String,
    pub kind: &'static str,
}

impl Asset {
    fn name(self) -> (r: &'static str)
        ensures
            r@ == asset_name(self),
    {
        match self {
            Asset::Style => "style",
            Asset::Listing => "listing",
            Asset::Standing => "standing",
            Asset::Panes => "panes",
            Asset::Beside => "beside",
            Asset::Stamps => "stamps",
            Asset::Watching => "watching",
        }
    }

    fn css(self) -> (r: bool)
        ensures
            r == is_css(self),
    {
        match self {
            Asset::Style => true,
            _ => false,
        }
    }

    pub fn kind(self) -> (r: &'static str)
        ensures
            r@ == asset_kind(self),
    {
        if self.css() {
            "text/css; charset=utf-8"
        } else {
            "text/javascript; charset=utf-8"
        }
    }

    pub fn body(self) -> (r: String)
        ensures
            r@ == asset_body(self),
    {
        match self {
            Asset::Style => {
                let mut out = theme::stylesheet();
                let layout = page::stylesheet();
                push_str(&mut out, layout.as_str());
                out
            },
            Asset::Listing => crate::text::owned(script::LISTING),
            Asset::Standing => crate::text::owned(script::STANDING),
            Asset::Panes => crate::text::owned(script::PANES),
            Asset::Beside => crate::text::owned(script::BESIDE),
            Asset::Stamps => crate::text::owned(script::STAMPS),
            Asset::Watching => crate::text::owned(script::WATCHING),
        }
    }

    /// The asset with its address worked out.
    pub fn held(self) -> (r: Held)
        ensures
            r.at@ == href_of(self),
            r.file@ == file_of(self),
            r.body@ == asset_body(self),
            r.kind@ == asset_kind(self),
    {
        let body = self.body();
        let mut file = crate::text::owned(self.name());
        push_str(&mut file, ".");
        let print = fingerprint(body.as_str());
        push_str(&mut file, print.as_str());
        push_str(&mut file, ".");
        push_str(&mut file, if self.css() { "css" } else { "js" });
        let mut at = crate::text::owned("/a/");
        push_str(&mut at, file.as_str());
        Held { at, file, body, kind: self.kind() }
    }

    pub fn href(self) -> (r: String)
        ensures
            r@ == href_of(self),
    {
        self.held().at
    }

    pub fn tag(self) -> (r: String)
        ensures
            r@ == tag_of(self),
    {
        let href = self.href();
        if self.css() {
            let mut out = crate::text::owned("<link rel=\"stylesheet\" href=\"");
            push_str(&mut out, href.as_str());
            push_str(&mut out, "\">");
            out
        } else {
            let mut out = crate::text::owned("<script src=\"");
            push_str(&mut out, href.as_str());
            push_str(&mut out, "\" defer></script>");
            out
        }
    }
}

/// The first asset whose file is `file`, if any.
pub open spec fn found(file: Seq<char>) -> Option<Asset> {
    if exists|i: int| 0 <= i < all().len() && file_of(all()[i]) == file {
        Some(all()[choose|i: int| 0 <= i < all().len() && file_of(all()[i]) == file
            && forall|j: int| 0 <= j < i ==> file_of(all()[j]) != file])
    } else {
        None
    }
}

/// Exact match only: answering a stale hash with current bytes would break
/// the promise the address makes.
pub fn find(file: &str) -> (r: Option<Held>)
    ensures
        match found(file@) {
            Some(a) => r matches Some(h) && h.at@ == href_of(a) && h.file@ == file_of(a)
                && h.body@ == asset_body(a) && h.kind@ == asset_kind(a),
            None => r is None,
        },
{
    let assets = every();
    let wanted = chars_of(file);
    let mut i: usize = 0;
    while i < assets.len()
        invariant
            assets@ == all(),
            i <= assets.len(),
            wanted@ == file@,
            forall|j: int| 0 <= j < i ==> file_of(all()[j]) != file@,
        decreases assets.len() - i,
    {
        let held = assets[i].held();
        let name = chars_of(held.file.as_str());
        if same(&name, &wanted) {
            proof {
                let w = choose|w: int| 0 <= w < all().len() && file_of(all()[w]) == file@
                    && forall|j: int| 0 <= j < w ==> file_of(all()[j]) != file@;
                assert(file_of(all()[i as int]) == file@);
                if w < i {
                } else if w > i {
                }
            }
            return Some(held);
        }
        i += 1;
    }
    None
}


proof fn lemma_named_first(a: Asset, k: int)
    requires
        0 <= k < asset_name(a).len(),
    ensures
        file_of(a)[k] == asset_name(a)[k],
{
}

/// No two assets answer at one address: different assets have different
/// files, whatever the hashes.
pub proof fn no_two_assets_share_an_address(a: Asset, b: Asset)
    requires
        a != b,
    ensures
        file_of(a) != file_of(b),
        href_of(a) != href_of(b),
{
    reveal_strlit("style");
    reveal_strlit("listing");
    reveal_strlit("standing");
    reveal_strlit("panes");
    reveal_strlit("beside");
    reveal_strlit("stamps");
    reveal_strlit("watching");
    lemma_named_first(a, 0);
    lemma_named_first(a, 2);
    lemma_named_first(a, 3);
    lemma_named_first(b, 0);
    lemma_named_first(b, 2);
    lemma_named_first(b, 3);
    if href_of(a) == href_of(b) {
        reveal_strlit("/a/");
        assert(href_of(a).subrange(3, href_of(a).len() as int) =~= file_of(a));
        assert(href_of(b).subrange(3, href_of(b).len() as int) =~= file_of(b));
    }
}

/// What a page links is what the route answers: the file in an asset's
/// address finds that asset.
pub proof fn what_a_page_links_is_what_the_route_answers(a: Asset)
    ensures
        found(file_of(a)) == Some(a),
{
    let i: int = match a {
        Asset::Style => 0,
        Asset::Listing => 1,
        Asset::Standing => 2,
        Asset::Panes => 3,
        Asset::Beside => 4,
        Asset::Stamps => 5,
        Asset::Watching => 6,
    };
    assert(all()[i] == a);
    let w = choose|w: int| 0 <= w < all().len() && file_of(all()[w]) == file_of(a)
        && forall|j: int| 0 <= j < w ==> file_of(all()[j]) != file_of(a);
    if all()[w] != a {
        no_two_assets_share_an_address(all()[w], a);
    }
}

/// Only a linked file is found: what the route answers for a file is the
/// asset whose address is `/a/` and that file, and a file no asset links
/// (a stale hash, a path) finds nothing.
pub proof fn only_a_linked_file_is_found(file: Seq<char>)
    ensures
        found(file) matches Some(a) ==> file_of(a) == file && href_of(a) == "/a/"@ + file,
        found(file) is None ==> forall|a: Asset| #[trigger] file_of(a) != file,
{
    if found(file) is None {
        assert forall|a: Asset| #[trigger] file_of(a) != file by {
            let i: int = match a {
                Asset::Style => 0,
                Asset::Listing => 1,
                Asset::Standing => 2,
                Asset::Panes => 3,
                Asset::Beside => 4,
                Asset::Stamps => 5,
                Asset::Watching => 6,
            };
            assert(all()[i] == a);
        }
    }
}
} // verus!
