//! The immutable routing target of the gateway: the downstream WMS root,
//! decomposed once at startup into scheme, host and base path.

use vstd::prelude::*;

use crate::text::{find_at, find_char, find_sub, find_sub_at, is_prefix, lemma_find_sub_at};

verus! {

/// The downstream WMS location. Built once from a root URL of the form
/// `scheme://host[/path]` and never mutated afterwards.
#[derive(Debug, Clone)]
pub struct AppState {
    pub wms_scheme: String,
    pub wms_host: String,
    pub wms_path: String,
}

/// The root URL contains a `://` separator; everything else the
/// decomposition tolerates.
pub open spec fn spec_root_well_formed(u: Seq<char>) -> bool {
    find_sub_at(u, "://"@) + "://"@.len() <= u.len()
}

/// The text before the first `://`.
pub open spec fn spec_scheme_of(u: Seq<char>) -> Seq<char> {
    u.take(find_sub_at(u, "://"@))
}

/// The text after the first `://`, up to the next `://` if there is one.
pub open spec fn spec_authority_of(u: Seq<char>) -> Seq<char> {
    let after = u.skip(find_sub_at(u, "://"@) + "://"@.len());
    after.take(find_sub_at(after, "://"@))
}

/// The authority's text before its first `/`.
pub open spec fn spec_host_of(u: Seq<char>) -> Seq<char> {
    let rest = spec_authority_of(u);
    rest.take(find_at(rest, '/'))
}

/// The authority's text from its first `/` on (slash included), or the empty
/// string when the authority names no path.
pub open spec fn spec_path_of(u: Seq<char>) -> Seq<char> {
    let rest = spec_authority_of(u);
    if find_at(rest, '/') < rest.len() {
        rest.skip(find_at(rest, '/'))
    } else {
        Seq::empty()
    }
}

impl AppState {
    /// Decomposes the WMS root URL into scheme, host and base path. The text
    /// before the first `://` is the scheme; of the remainder (up to a second
    /// `://`, if any), the text before the first `/` is the host and the rest,
    /// slash included, is the base path.
    pub fn new(wms_root_url: &str) -> (st: Self)
        requires
            spec_root_well_formed(wms_root_url@),
        ensures
            st.wms_scheme@ == spec_scheme_of(wms_root_url@),
            st.wms_host@ == spec_host_of(wms_root_url@),
            st.wms_path@ == spec_path_of(wms_root_url@),
    {
        proof {
            reveal_strlit("://");
            lemma_find_sub_at(wms_root_url@, "://"@);
        }
        let n = wms_root_url.unicode_len();
        let k = find_sub(wms_root_url, "://");
        let wms_scheme = wms_root_url.substring_char(0, k).to_owned();
        let after = wms_root_url.substring_char(k + 3, n);
        proof {
            lemma_find_sub_at(after@, "://"@);
        }
        let k2 = find_sub(after, "://");
        let rest = after.substring_char(0, k2);
        proof {
            crate::text::lemma_find_at(rest@, '/');
        }
        let rest_len = rest.unicode_len();
        let i = find_char(rest, '/');
        let wms_host = rest.substring_char(0, i).to_owned();
        let wms_path = if i < rest_len {
            rest.substring_char(i, rest_len).to_owned()
        } else {
            "".to_owned()
        };
        proof {
            reveal_strlit("");
            assert(wms_scheme@ =~= spec_scheme_of(wms_root_url@));
            assert(rest@ =~= spec_authority_of(wms_root_url@));
            assert(wms_host@ =~= spec_host_of(wms_root_url@));
            assert(wms_path@ =~= spec_path_of(wms_root_url@));
        }
        AppState { wms_scheme, wms_host, wms_path }
    }
}

} // verus!
