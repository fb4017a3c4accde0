//! Extraction of the first continuation token from the origin page: find
//! the inline script that carries the initialization payload, strip its
//! fixed frame, parse it, and search the panels for a token in either of
//! the two known locations, first panel and first location winning.

use vstd::prelude::*;
use crate::json::{JsonVal, get_key, get_opt, idx_opt, str_opt, arr_opt, getp, idxp, strp, arrp,
    json_of, parse_document};
use crate::text::{has_sub, contains_sub};
use crate::CrawlError;

verus! {

/// The initialization marker an inline script must contain.
pub open spec fn marker() -> Seq<char> {
    "ytInitialData"@
}

/// The first script that contains the initialization marker.
pub open spec fn marked_script(scripts: Seq<Seq<char>>) -> Option<Seq<char>>
    decreases scripts.len(),
{
    if scripts.len() == 0 {
        None
    } else if has_sub(scripts[0], marker()) {
        Some(scripts[0])
    } else {
        marked_script(scripts.drop_first())
    }
}

/// The JSON payload of the marked script: everything between its fixed
/// nineteen-character prefix and its one trailing character.
pub open spec fn payload_of(script: Seq<char>) -> Option<Seq<char>> {
    if script.len() >= 20 {
        Some(script.subrange(19, script.len() - 1))
    } else {
        None
    }
}

/// Keeps a token only when it is non-empty.
pub open spec fn nonempty(o: Option<Seq<char>>) -> Option<Seq<char>> {
    match o {
        Some(t) => if t.len() > 0 {
            Some(t)
        } else {
            None
        },
        None => None,
    }
}

/// The token in a panel's header sub-menu: the first sub-menu item's
/// service-endpoint continuation token.
pub open spec fn submenu_token_of(p: JsonVal) -> Option<Seq<char>> {
    let section = get_key(p, "engagementPanelSectionListRenderer"@);
    let menu = get_opt(
        get_opt(get_opt(section, "header"@), "engagementPanelTitleHeaderRenderer"@),
        "menu"@,
    );
    let items = get_opt(get_opt(menu, "sortFilterSubMenuRenderer"@), "subMenuItems"@);
    let endpoint = get_opt(idx_opt(items, 0), "serviceEndpoint"@);
    str_opt(get_opt(get_opt(endpoint, "continuationCommand"@), "token"@))
}

/// The token in a panel's content section: the continuation-item's
/// continuation-endpoint token.
pub open spec fn content_token_of(p: JsonVal) -> Option<Seq<char>> {
    let section = get_key(p, "engagementPanelSectionListRenderer"@);
    let list = get_opt(get_opt(get_opt(section, "content"@), "sectionListRenderer"@), "contents"@);
    let item = get_opt(get_opt(idx_opt(list, 0), "itemSectionRenderer"@), "contents"@);
    let endpoint = get_opt(get_opt(item, "continuationItemRenderer"@), "continuationEndpoint"@);
    str_opt(get_opt(get_opt(endpoint, "continuationCommand"@), "token"@))
}

/// The first non-empty token a panel yields: sub-menu location first,
/// content location second.
pub open spec fn panel_token_of(p: JsonVal) -> Option<Seq<char>> {
    match nonempty(submenu_token_of(p)) {
        Some(t) => Some(t),
        None => nonempty(content_token_of(p)),
    }
}

/// The first panel's token, in panel order.
pub open spec fn first_panel_token(panels: Seq<JsonVal>) -> Option<Seq<char>>
    decreases panels.len(),
{
    if panels.len() == 0 {
        None
    } else {
        match panel_token_of(panels[0]) {
            Some(t) => Some(t),
            None => first_panel_token(panels.drop_first()),
        }
    }
}

/// The bootstrap token of a parsed initialization document.
pub open spec fn doc_token(d: JsonVal) -> Option<Seq<char>> {
    match arr_opt(get_key(d, "engagementPanels"@)) {
        Some(panels) => first_panel_token(panels),
        None => None,
    }
}

/// The bootstrap token of a whole page: marked script, then payload,
/// then parsed document, then panel search.
pub open spec fn token_of_page(h: Seq<char>) -> Option<Seq<char>> {
    match marked_script(scripts_of(h)) {
        Some(sc) => match payload_of(sc) {
            Some(pl) => match json_of(pl) {
                Some(d) => doc_token(d),
                None => None,
            },
            None => None,
        },
        None => None,
    }
}

/// What scanning a document for inline scripts yields, in document
/// order: a function of the document text alone.
pub uninterp spec fn scripts_of(h: Seq<char>) -> Seq<Seq<char>>;

/// Relies on scraper's Html::parse_document, Selector::parse("script"),
/// Html::select and ElementRef::inner_html: the inline content of every
/// script element of the document, in document order, a function of the
/// text alone.
#[verifier::external_body]
fn inline_scripts(html: &str) -> (r: Vec<String>)
    ensures
        r.deep_view() == scripts_of(html@),
{
    let document = scraper::Html::parse_document(html);
    let selector = scraper::Selector::parse("script").unwrap();
    let mut out = Vec::new();
    for element in document.select(&selector) {
        out.push(element.inner_html());
    }
    out
}

proof fn lemma_marked_skip(scripts: Seq<Seq<char>>, i: int)
    requires
        0 <= i <= scripts.len(),
        forall|j: int| 0 <= j < i ==> !has_sub(#[trigger] scripts[j], marker()),
    ensures
        marked_script(scripts) == marked_script(scripts.skip(i)),
    decreases i,
{
    if i > 0 {
        lemma_marked_skip(scripts, i - 1);
        assert(scripts.skip(i - 1).drop_first() =~= scripts.skip(i));
        assert(scripts.skip(i - 1)[0] == scripts[i - 1]);
    } else {
        assert(scripts.skip(0) =~= scripts);
    }
}

proof fn lemma_first_panel_skip(panels: Seq<JsonVal>, i: int)
    requires
        0 <= i <= panels.len(),
        forall|j: int| 0 <= j < i ==> panel_token_of(#[trigger] panels[j]) is None,
    ensures
        first_panel_token(panels) == first_panel_token(panels.skip(i)),
    decreases i,
{
    if i > 0 {
        lemma_first_panel_skip(panels, i - 1);
        assert(panels.skip(i - 1).drop_first() =~= panels.skip(i));
        assert(panels.skip(i - 1)[0] == panels[i - 1]);
    } else {
        assert(panels.skip(0) =~= panels);
    }
}

/// The first non-empty token of one panel, sub-menu location first.
fn panel_token<'a>(p: &'a JsonVal) -> (r: Option<&'a String>)
    ensures
        match r {
            Some(t) => panel_token_of(*p) == Some(t@) && t@.len() > 0,
            None => panel_token_of(*p) is None,
        },
{
    let section = getp(Some(p), "engagementPanelSectionListRenderer");
    let h = getp(section, "header");
    let h = getp(h, "engagementPanelTitleHeaderRenderer");
    let h = getp(h, "menu");
    let h = getp(h, "sortFilterSubMenuRenderer");
    let h = getp(h, "subMenuItems");
    let h = idxp(h, 0);
    let h = getp(h, "serviceEndpoint");
    let h = getp(h, "continuationCommand");
    match strp(getp(h, "token")) {
        Some(t) => {
            if !t.as_str().is_empty() {
                return Some(t);
            }
        },
        None => {},
    }
    let c = getp(section, "content");
    let c = getp(c, "sectionListRenderer");
    let c = getp(c, "contents");
    let c = idxp(c, 0);
    let c = getp(c, "itemSectionRenderer");
    let c = getp(c, "contents");
    let c = getp(c, "continuationItemRenderer");
    let c = getp(c, "continuationEndpoint");
    let c = getp(c, "continuationCommand");
    match strp(getp(c, "token")) {
        Some(t) => {
            if !t.as_str().is_empty() {
                Some(t)
            } else {
                None
            }
        },
        None => None,
    }
}

/// The bootstrap token of a parsed initialization document.
fn find_doc_token<'a>(d: &'a JsonVal) -> (r: Option<&'a String>)
    ensures
        match r {
            Some(t) => doc_token(*d) == Some(t@) && t@.len() > 0,
            None => doc_token(*d) is None,
        },
{
    match arrp(getp(Some(d), "engagementPanels")) {
        Some(panels) => {
            let n = panels.len();
            for i in 0..n
                invariant
                    n == panels@.len(),
                    arr_opt(get_key(*d, "engagementPanels"@)) == Some(panels@),
                    forall|j: int| 0 <= j < i ==> panel_token_of(#[trigger] panels@[j]) is None,
            {
                match panel_token(&panels[i]) {
                    Some(t) => {
                        proof {
                            lemma_first_panel_skip(panels@, i as int);
                            assert(panels@.skip(i as int)[0] == panels@[i as int]);
                        }
                        return Some(t);
                    },
                    None => {},
                }
            }
            proof {
                lemma_first_panel_skip(panels@, n as int);
                assert(panels@.skip(n as int) =~= Seq::<JsonVal>::empty());
            }
            None
        },
        None => None,
    }
}

/// Resolves the bootstrap token out of the origin page's text. Fails
/// with `TokenNotFound` — fatal to the crawl — exactly when no marked
/// script, no payload, or no panel token exists.
pub fn resolve_token(html: &str) -> (r: Result<String, CrawlError>)
    ensures
        match r {
            Ok(t) => token_of_page(html@) == Some(t@) && t@.len() > 0,
            Err(e) => e == CrawlError::TokenNotFound && token_of_page(html@) is None,
        },
{
    let scripts = inline_scripts(html);
    let n = scripts.len();
    for i in 0..n
        invariant
            n == scripts@.len(),
            scripts.deep_view() == scripts_of(html@),
            forall|j: int| 0 <= j < i ==> !has_sub(#[trigger] scripts.deep_view()[j], marker()),
    {
        if contains_sub(scripts[i].as_str(), "ytInitialData") {
            proof {
                lemma_marked_skip(scripts.deep_view(), i as int);
                assert(scripts.deep_view().skip(i as int)[0] == scripts.deep_view()[i as int]);
                assert(marked_script(scripts_of(html@)) == Some(scripts@[i as int]@));
            }
            let sc = scripts[i].as_str();
            let len = sc.unicode_len();
            if len < 20 {
                return Err(CrawlError::TokenNotFound);
            }
            let payload = sc.substring_char(19, len - 1);
            proof {
                assert(payload@ =~= sc@.subrange(19, sc@.len() - 1));
            }
            match parse_document(payload) {
                Some(doc) => {
                    match find_doc_token(&doc) {
                        Some(t) => {
                            return Ok(t.clone());
                        },
                        None => {
                            return Err(CrawlError::TokenNotFound);
                        },
                    }
                },
                None => {
                    return Err(CrawlError::TokenNotFound);
                },
            }
        }
    }
    proof {
        lemma_marked_skip(scripts.deep_view(), n as int);
        assert(scripts.deep_view().skip(n as int) =~= Seq::<Seq<char>>::empty());
    }
    Err(CrawlError::TokenNotFound)
}

} // verus!
