//! The WMS request model: the decoded query parameters, the classifier that
//! decides between transparent passthrough and value-transcoding intercept,
//! the layer-list expansion, and the three downstream URL shapes.

use vstd::prelude::*;

use crate::text::{
    dec_str, dec_val, find_at, find_char, int_str, int_val, is_dec_string, is_int_string,
    is_prefix, lemma_find_at, parse_i32, parse_u32, pct_decode, percent_decode, split_on,
    split_string, starts_with, str_eq, u32_to_string, i32_to_string,
};

verus! {

/// The physical value range of a layer's current slice, as fetched from the
/// downstream `GetMetadata&item=minmax` call. The bounds are kept as their
/// decimal texts, exactly as the fetching side renders the numbers, so that
/// the crate's contracts stay on plain values; the floating-point scaling
/// derived from them never enters this crate.
#[derive(Debug, Clone)]
pub struct WmsMinMax {
    pub min: String,
    pub max: String,
}

/// The decoded query parameters of an inbound WMS request. Field names are
/// matched against both the lower-case and the upper-case WMS spellings.
#[derive(Debug, Clone)]
pub struct WmsParams {
    pub request: String,
    pub version: String,
    pub layers: Option<String>,
    pub styles: Option<String>,
    pub bbox: Option<String>,
    pub width: Option<u32>,
    pub height: Option<u32>,
    pub srs: Option<String>,
    pub time: Option<String>,
    pub elevation: Option<i32>,
    pub units: Option<String>,
}

/// A style value that triggers value transcoding. The active prefixes are
/// `values/` and `particles/`.
pub open spec fn is_value_style(s: Seq<char>) -> bool {
    is_prefix("values/"@, s) || is_prefix("particles/"@, s)
}

/// The request is forwarded unmodified unless it is a `GetMap` whose styles
/// value asks for a value-encoding rendering.
pub open spec fn spec_is_passthrough(p: WmsParams) -> bool {
    match p.styles {
        Option::None => true,
        Option::Some(styles) => p.request@ != "GetMap"@ || !is_value_style(styles@),
    }
}

/// One comma-separated token of the layer list, expanded: a token holding a
/// group delimiter `-` decomposes into the `:`-separated names before the
/// first `-`; any other token stands for itself.
pub open spec fn expand_token(t: Seq<char>) -> Seq<Seq<char>> {
    if find_at(t, '-') < t.len() {
        split_on(t.take(find_at(t, '-')), ':')
    } else {
        seq![t]
    }
}

/// The resolved layer names of a `layers` value: each comma-separated token,
/// expanded in order.
pub open spec fn spec_parse_layers(layers: Seq<char>) -> Seq<Seq<char>>
    decreases layers.len(),
{
    let i = find_at(layers, ',');
    if 0 <= i < layers.len() {
        expand_token(layers.take(i)) + spec_parse_layers(layers.skip(i + 1))
    } else {
        expand_token(layers)
    }
}

/// Expansion never yields an empty list.
pub proof fn lemma_parse_layers_nonempty(layers: Seq<char>)
    ensures
        spec_parse_layers(layers).len() >= 1,
    decreases layers.len(),
{
    crate::text::lemma_split_on_nonempty(layers.take(find_at(layers, ',')), ':');
    let i = find_at(layers, ',');
    if 0 <= i < layers.len() {
        lemma_parse_layers_nonempty(layers.skip(i + 1));
    } else {
        crate::text::lemma_split_on_nonempty(layers.take(find_at(layers, '-')), ':');
    }
}

fn expand_token_exec(t: &str) -> (r: Vec<String>)
    ensures
        r.deep_view() == expand_token(t@),
        r.len() >= 1,
{
    let n = t.unicode_len();
    let i = find_char(t, '-');
    proof {
        lemma_find_at(t@, '-');
    }
    if i < n {
        split_string(t.substring_char(0, i), ':')
    } else {
        let mut r: Vec<String> = Vec::new();
        r.push(t.to_owned());
        proof {
            assert(r.deep_view() =~= expand_token(t@));
        }
        r
    }
}

fn parse_layers_str(s: &str) -> (r: Vec<String>)
    ensures
        r.deep_view() == spec_parse_layers(s@),
        r.len() >= 1,
    decreases s@.len(),
{
    let n = s.unicode_len();
    let i = find_char(s, ',');
    proof {
        lemma_find_at(s@, ',');
    }
    if i == n {
        expand_token_exec(s)
    } else {
        let mut r = expand_token_exec(s.substring_char(0, i));
        let mut rest = parse_layers_str(s.substring_char(i + 1, n));
        r.append(&mut rest);
        proof {
            assert(r.deep_view() =~= spec_parse_layers(s@));
        }
        r
    }
}

/// Absent or non-matching styles always classify as passthrough, whatever
/// the other parameters hold.
pub proof fn lemma_plain_styles_passthrough(p: WmsParams)
    requires
        p.styles is None || !is_value_style(p.styles->Some_0@),
    ensures
        spec_is_passthrough(p),
{
}

/// A `GetMap` request whose styles value carries a value-encoding prefix is
/// always intercepted.
pub proof fn lemma_value_style_intercepted(p: WmsParams)
    requires
        p.request@ == "GetMap"@,
        p.styles is Some,
        is_value_style(p.styles->Some_0@),
    ensures
        !spec_is_passthrough(p),
{
}

/// The key text of one `key=value` query segment: everything before the
/// first `=` (the whole segment when there is none).
pub open spec fn seg_key(seg: Seq<char>) -> Seq<char> {
    seg.take(find_at(seg, '='))
}

/// The raw value text of one query segment: everything after the first `=`,
/// or empty when the segment has none.
pub open spec fn seg_val(seg: Seq<char>) -> Seq<char> {
    if find_at(seg, '=') < seg.len() {
        seg.skip(find_at(seg, '=') + 1)
    } else {
        Seq::empty()
    }
}

/// Every key and every value of the query's `&`-separated segments
/// percent-decodes.
pub open spec fn all_segments_decode(q: Seq<char>) -> bool {
    forall|i: int|
        0 <= i < split_on(q, '&').len() ==> pct_decode(
            seg_key(#[trigger] split_on(q, '&')[i]),
        ) is Some && pct_decode(seg_val(split_on(q, '&')[i])) is Some
}

/// The decoded value of the last segment whose decoded key is `lower` or
/// `upper`, or nothing when no segment's key matches.
pub open spec fn lookup_in(segs: Seq<Seq<char>>, lower: Seq<char>, upper: Seq<char>) -> Option<
    Seq<char>,
>
    decreases segs.len(),
{
    if segs.len() == 0 {
        Option::None
    } else if pct_decode(seg_key(segs.last())) == Option::Some(lower) || pct_decode(
        seg_key(segs.last()),
    ) == Option::Some(upper) {
        pct_decode(seg_val(segs.last()))
    } else {
        lookup_in(segs.drop_last(), lower, upper)
    }
}

/// The decoded value that the query assigns to the field with the given
/// lower-case and upper-case key spellings (the last assignment wins).
pub open spec fn spec_lookup(q: Seq<char>, lower: Seq<char>, upper: Seq<char>) -> Option<
    Seq<char>,
> {
    lookup_in(split_on(q, '&'), lower, upper)
}

/// The query parses into `WmsParams`: every segment decodes, the required
/// `request` and `version` fields are present, and the numeric fields (when
/// present) read as numbers of their type.
pub open spec fn spec_query_ok(q: Seq<char>) -> bool {
    &&& all_segments_decode(q)
    &&& spec_lookup(q, "request"@, "REQUEST"@) is Some
    &&& spec_lookup(q, "version"@, "VERSION"@) is Some
    &&& match spec_lookup(q, "width"@, "WIDTH"@) {
        Option::Some(t) => is_dec_string(t) && dec_val(t) <= u32::MAX,
        Option::None => true,
    }
    &&& match spec_lookup(q, "height"@, "HEIGHT"@) {
        Option::Some(t) => is_dec_string(t) && dec_val(t) <= u32::MAX,
        Option::None => true,
    }
    &&& match spec_lookup(q, "elevation"@, "ELEVATION"@) {
        Option::Some(t) => is_int_string(t) && i32::MIN <= int_val(t) <= i32::MAX,
        Option::None => true,
    }
}

/// An optional text field holds exactly the looked-up decoded value.
pub open spec fn opt_text_matches(v: Option<String>, t: Option<Seq<char>>) -> bool {
    match (v, t) {
        (Option::Some(s), Option::Some(x)) => s@ == x,
        (Option::None, Option::None) => true,
        _ => false,
    }
}

/// Every field of `p` holds what the query assigns to it: the decoded text
/// of the last matching segment, read as a number for the numeric fields,
/// and nothing for fields the query never assigns.
pub open spec fn spec_params_match(q: Seq<char>, p: WmsParams) -> bool {
    &&& Option::Some(p.request@) == spec_lookup(q, "request"@, "REQUEST"@)
    &&& Option::Some(p.version@) == spec_lookup(q, "version"@, "VERSION"@)
    &&& opt_text_matches(p.layers, spec_lookup(q, "layers"@, "LAYERS"@))
    &&& opt_text_matches(p.styles, spec_lookup(q, "styles"@, "STYLES"@))
    &&& opt_text_matches(p.bbox, spec_lookup(q, "bbox"@, "BBOX"@))
    &&& opt_text_matches(p.srs, spec_lookup(q, "srs"@, "SRS"@))
    &&& opt_text_matches(p.time, spec_lookup(q, "time"@, "TIME"@))
    &&& opt_text_matches(p.units, spec_lookup(q, "units"@, "UNITS"@))
    &&& match spec_lookup(q, "width"@, "WIDTH"@) {
        Option::Some(t) => p.width == Option::Some(dec_val(t) as u32),
        Option::None => p.width is None,
    }
    &&& match spec_lookup(q, "height"@, "HEIGHT"@) {
        Option::Some(t) => p.height == Option::Some(dec_val(t) as u32),
        Option::None => p.height is None,
    }
    &&& match spec_lookup(q, "elevation"@, "ELEVATION"@) {
        Option::Some(t) => p.elevation == Option::Some(int_val(t) as i32),
        Option::None => p.elevation is None,
    }
}

/// The `&elevation=` query fragment, empty when no elevation was requested.
pub open spec fn spec_elevation_part(elevation: Option<i32>) -> Seq<char> {
    match elevation {
        Option::Some(e) => "&elevation="@ + int_str(e as int),
        Option::None => Seq::empty(),
    }
}

/// The `&time=` query fragment, empty when no time was requested.
pub open spec fn spec_time_part(time: Option<String>) -> Seq<char> {
    match time {
        Option::Some(t) => "&time="@ + t@,
        Option::None => Seq::empty(),
    }
}

/// The downstream `GetMetadata&item=minmax` URL for one layer: the routing
/// target's WMS endpoint, the layer under both `layername` and `layers`,
/// empty `styles`, and the inbound `srs`, `bbox`, `width`, `height` and
/// (when present) `elevation` and `time` copied through.
pub open spec fn spec_minmax_url(
    scheme: Seq<char>,
    host: Seq<char>,
    path: Seq<char>,
    p: WmsParams,
    layer: Seq<char>,
) -> Seq<char> {
    scheme + "://"@ + host + path
        + "/wms/?service=WMS&request=GetMetadata&version=1.1.1&item=minmax&layername="@ + layer
        + "&layers="@ + layer + "&styles=&srs="@ + p.srs->Some_0@ + "&bbox="@ + p.bbox->Some_0@
        + "&width="@ + dec_str(p.width->Some_0 as nat) + "&height="@ + dec_str(
        p.height->Some_0 as nat,
    ) + spec_elevation_part(p.elevation) + spec_time_part(p.time)
}

/// The downstream `GetMap` URL that renders one layer with the fixed
/// inverted-greyscale reference style: 250 color bands over the layer's
/// just-resolved min/max range, transparency on, and the inbound `srs`,
/// `bbox`, `width`, `height`, `elevation` and `time` copied through.
pub open spec fn spec_reference_map_url(
    scheme: Seq<char>,
    host: Seq<char>,
    path: Seq<char>,
    p: WmsParams,
    layer: Seq<char>,
    minmax: WmsMinMax,
) -> Seq<char> {
    scheme + "://"@ + host + path + "/wms/?service=WMS&request=GetMap&version=1.1.1&layers="@
        + layer + "&styles=raster/seq-GreysRev&format=image/png;mode=32bit&transparent=true&srs="@
        + p.srs->Some_0@ + "&bbox="@ + p.bbox->Some_0@ + "&width="@ + dec_str(
        p.width->Some_0 as nat,
    ) + "&height="@ + dec_str(p.height->Some_0 as nat) + "&colorscalerange="@ + minmax.min@
        + ","@ + minmax.max@ + "&numcolorbands=250"@ + spec_elevation_part(
        p.elevation,
    ) + spec_time_part(p.time)
}

/// The routing target's WMS endpoint with a `?` ready to take a query string.
pub open spec fn spec_passthrough_prefix(
    scheme: Seq<char>,
    host: Seq<char>,
    path: Seq<char>,
) -> Seq<char> {
    scheme + "://"@ + host + path + "/wms/?"@
}

/// The passthrough URL: the endpoint prefix followed by the inbound query
/// string, byte for byte.
pub open spec fn spec_passthrough_url(
    scheme: Seq<char>,
    host: Seq<char>,
    path: Seq<char>,
    query: Seq<char>,
) -> Seq<char> {
    spec_passthrough_prefix(scheme, host, path) + query
}

/// The tail of a passthrough URL is the inbound query string unmodified:
/// forwarding re-encodes nothing.
pub proof fn lemma_passthrough_query_identical(
    scheme: Seq<char>,
    host: Seq<char>,
    path: Seq<char>,
    query: Seq<char>,
)
    ensures
        ({
            let url = spec_passthrough_url(scheme, host, path, query);
            url.subrange(url.len() - query.len(), url.len() as int) == query
        }),
{
    let prefix = spec_passthrough_prefix(scheme, host, path);
    let url = spec_passthrough_url(scheme, host, path, query);
    assert(url.subrange(url.len() - query.len(), url.len() as int) =~= query);
}

/// Builds the passthrough URL for the routing target from the raw inbound
/// query string.
pub fn build_passthrough_url(
    scheme: &str,
    host: &str,
    path: &str,
    query: &str,
) -> (url: String)
    ensures
        url@ == spec_passthrough_url(scheme@, host@, path@, query@),
{
    let mut url = scheme.to_owned();
    url.append("://");
    url.append(host);
    url.append(path);
    url.append("/wms/?");
    url.append(query);
    proof {
        assert(url@ =~= spec_passthrough_url(scheme@, host@, path@, query@));
    }
    url
}

/// Appends the `&elevation=` fragment when an elevation was requested.
fn append_elevation(url: &mut String, elevation: &Option<i32>)
    ensures
        final(url)@ == old(url)@ + spec_elevation_part(*elevation),
{
    match elevation {
        Option::Some(e) => {
            url.append("&elevation=");
            url.append(i32_to_string(*e).as_str());
            proof {
                assert(url@ =~= old(url)@ + spec_elevation_part(*elevation));
            }
        },
        Option::None => {
            proof {
                assert(url@ =~= old(url)@ + spec_elevation_part(*elevation));
            }
        },
    }
}

/// Appends the `&time=` fragment when a time was requested.
fn append_time(url: &mut String, time: &Option<String>)
    ensures
        final(url)@ == old(url)@ + spec_time_part(*time),
{
    match time {
        Option::Some(t) => {
            url.append("&time=");
            url.append(t.as_str());
            proof {
                assert(url@ =~= old(url)@ + spec_time_part(*time));
            }
        },
        Option::None => {
            proof {
                assert(url@ =~= old(url)@ + spec_time_part(*time));
            }
        },
    }
}

impl WmsParams {
    /// Decides passthrough versus intercept: only a `GetMap` request whose
    /// `styles` starts with a recognized value-encoding prefix is
    /// intercepted.
    pub fn passthrough_request(&self) -> (r: bool)
        ensures
            r == spec_is_passthrough(*self),
    {
        match &self.styles {
            Option::None => true,
            Option::Some(styles) => {
                let getmap = str_eq(self.request.as_str(), "GetMap");
                let values = starts_with(styles.as_str(), "values/");
                let particles = starts_with(styles.as_str(), "particles/");
                !getmap || !(values || particles)
            },
        }
    }

    /// Builds the downstream min/max metadata URL for one layer.
    pub fn get_minmax_url(
        &self,
        wms_scheme: &str,
        wms_host: &str,
        wms_path: &str,
        layer: &str,
    ) -> (url: String)
        requires
            self.srs is Some,
            self.bbox is Some,
            self.width is Some,
            self.height is Some,
        ensures
            url@ == spec_minmax_url(wms_scheme@, wms_host@, wms_path@, *self, layer@),
    {
        let mut url = wms_scheme.to_owned();
        url.append("://");
        url.append(wms_host);
        url.append(wms_path);
        url.append("/wms/?service=WMS&request=GetMetadata&version=1.1.1&item=minmax&layername=");
        url.append(layer);
        url.append("&layers=");
        url.append(layer);
        url.append("&styles=&srs=");
        url.append(self.srs.as_ref().unwrap().as_str());
        url.append("&bbox=");
        url.append(self.bbox.as_ref().unwrap().as_str());
        url.append("&width=");
        url.append(u32_to_string(self.width.unwrap()).as_str());
        url.append("&height=");
        url.append(u32_to_string(self.height.unwrap()).as_str());
        append_elevation(&mut url, &self.elevation);
        append_time(&mut url, &self.time);
        proof {
            assert(url@ =~= spec_minmax_url(wms_scheme@, wms_host@, wms_path@, *self, layer@));
        }
        url
    }

    /// Builds the downstream reference-image URL for one layer and its
    /// resolved min/max range.
    pub fn get_reference_map_url(
        &self,
        wms_scheme: &str,
        wms_host: &str,
        wms_path: &str,
        layer: &str,
        minmax: &WmsMinMax,
    ) -> (url: String)
        requires
            self.srs is Some,
            self.bbox is Some,
            self.width is Some,
            self.height is Some,
        ensures
            url@ == spec_reference_map_url(
                wms_scheme@,
                wms_host@,
                wms_path@,
                *self,
                layer@,
                *minmax,
            ),
    {
        let mut url = wms_scheme.to_owned();
        url.append("://");
        url.append(wms_host);
        url.append(wms_path);
        url.append("/wms/?service=WMS&request=GetMap&version=1.1.1&layers=");
        url.append(layer);
        url.append("&styles=raster/seq-GreysRev&format=image/png;mode=32bit&transparent=true&srs=");
        url.append(self.srs.as_ref().unwrap().as_str());
        url.append("&bbox=");
        url.append(self.bbox.as_ref().unwrap().as_str());
        url.append("&width=");
        url.append(u32_to_string(self.width.unwrap()).as_str());
        url.append("&height=");
        url.append(u32_to_string(self.height.unwrap()).as_str());
        url.append("&colorscalerange=");
        url.append(minmax.min.as_str());
        url.append(",");
        url.append(minmax.max.as_str());
        url.append("&numcolorbands=250");
        append_elevation(&mut url, &self.elevation);
        append_time(&mut url, &self.time);
        proof {
            assert(url@ =~= spec_reference_map_url(
                wms_scheme@,
                wms_host@,
                wms_path@,
                *self,
                layer@,
                *minmax,
            ));
        }
        url
    }

    /// Parses a raw query string into typed parameters: `&`-separated
    /// `key=value` segments, keys matched against both WMS spellings, the
    /// last assignment winning, unknown keys ignored, every key and value
    /// percent-decoded. Yields nothing when a segment does not decode, when
    /// `request` or `version` is missing, or when a numeric field does not
    /// read as a number of its type.
    pub fn from_query(q: &str) -> (r: Option<WmsParams>)
        ensures
            r is Some <==> spec_query_ok(q@),
            r matches Option::Some(p) ==> spec_params_match(q@, p),
    {
        let ghost gsegs = split_on(q@, '&');
        let segs = split_string(q, '&');
        let n = segs.len();
        let mut request: Option<String> = Option::None;
        let mut version: Option<String> = Option::None;
        let mut layers: Option<String> = Option::None;
        let mut styles: Option<String> = Option::None;
        let mut bbox: Option<String> = Option::None;
        let mut width_t: Option<String> = Option::None;
        let mut height_t: Option<String> = Option::None;
        let mut srs: Option<String> = Option::None;
        let mut time: Option<String> = Option::None;
        let mut elevation_t: Option<String> = Option::None;
        let mut units: Option<String> = Option::None;
        let mut i: usize = 0;
        proof {
            assert(gsegs.take(0) =~= Seq::<Seq<char>>::empty());
        }
        while i < n
            invariant
                gsegs == split_on(q@, '&'),
                segs.deep_view() == gsegs,
                n == segs@.len(),
                0 <= i <= n,
                forall|j: int|
                    0 <= j < i ==> pct_decode(seg_key(#[trigger] gsegs[j])) is Some && pct_decode(
                        seg_val(gsegs[j]),
                    ) is Some,
                opt_text_matches(request, lookup_in(gsegs.take(i as int), "request"@, "REQUEST"@)),
                opt_text_matches(version, lookup_in(gsegs.take(i as int), "version"@, "VERSION"@)),
                opt_text_matches(layers, lookup_in(gsegs.take(i as int), "layers"@, "LAYERS"@)),
                opt_text_matches(styles, lookup_in(gsegs.take(i as int), "styles"@, "STYLES"@)),
                opt_text_matches(bbox, lookup_in(gsegs.take(i as int), "bbox"@, "BBOX"@)),
                opt_text_matches(width_t, lookup_in(gsegs.take(i as int), "width"@, "WIDTH"@)),
                opt_text_matches(height_t, lookup_in(gsegs.take(i as int), "height"@, "HEIGHT"@)),
                opt_text_matches(srs, lookup_in(gsegs.take(i as int), "srs"@, "SRS"@)),
                opt_text_matches(time, lookup_in(gsegs.take(i as int), "time"@, "TIME"@)),
                opt_text_matches(
                    elevation_t,
                    lookup_in(gsegs.take(i as int), "elevation"@, "ELEVATION"@),
                ),
                opt_text_matches(units, lookup_in(gsegs.take(i as int), "units"@, "UNITS"@)),
            decreases n - i,
        {
            let seg: &str = segs[i].as_str();
            proof {
                assert(seg@ == gsegs[i as int]);
            }
            let m = seg.unicode_len();
            let e = find_char(seg, '=');
            proof {
                lemma_find_at(seg@, '=');
            }
            let key_raw = seg.substring_char(0, e);
            let val_raw: &str = if e < m {
                seg.substring_char(e + 1, m)
            } else {
                ""
            };
            proof {
                reveal_strlit("");
                assert(key_raw@ =~= seg_key(gsegs[i as int]));
                assert(val_raw@ =~= seg_val(gsegs[i as int]));
            }
            let key_dec = percent_decode(key_raw);
            let val_dec = percent_decode(val_raw);
            match (key_dec, val_dec) {
                (Option::Some(key), Option::Some(val)) => {
                    if str_eq(key.as_str(), "request") || str_eq(key.as_str(), "REQUEST") {
                        request = Option::Some(val.clone());
                    }
                    if str_eq(key.as_str(), "version") || str_eq(key.as_str(), "VERSION") {
                        version = Option::Some(val.clone());
                    }
                    if str_eq(key.as_str(), "layers") || str_eq(key.as_str(), "LAYERS") {
                        layers = Option::Some(val.clone());
                    }
                    if str_eq(key.as_str(), "styles") || str_eq(key.as_str(), "STYLES") {
                        styles = Option::Some(val.clone());
                    }
                    if str_eq(key.as_str(), "bbox") || str_eq(key.as_str(), "BBOX") {
                        bbox = Option::Some(val.clone());
                    }
                    if str_eq(key.as_str(), "width") || str_eq(key.as_str(), "WIDTH") {
                        width_t = Option::Some(val.clone());
                    }
                    if str_eq(key.as_str(), "height") || str_eq(key.as_str(), "HEIGHT") {
                        height_t = Option::Some(val.clone());
                    }
                    if str_eq(key.as_str(), "srs") || str_eq(key.as_str(), "SRS") {
                        srs = Option::Some(val.clone());
                    }
                    if str_eq(key.as_str(), "time") || str_eq(key.as_str(), "TIME") {
                        time = Option::Some(val.clone());
                    }
                    if str_eq(key.as_str(), "elevation") || str_eq(key.as_str(), "ELEVATION") {
                        elevation_t = Option::Some(val.clone());
                    }
                    if str_eq(key.as_str(), "units") || str_eq(key.as_str(), "UNITS") {
                        units = Option::Some(val.clone());
                    }
                },
                _ => {
                    return Option::None;
                },
            }
            i = i + 1;
            proof {
                assert(gsegs.take(i as int).drop_last() =~= gsegs.take(i as int - 1));
                assert(gsegs.take(i as int).last() == gsegs[i as int - 1]);
            }
        }
        proof {
            assert(gsegs.take(n as int) =~= gsegs);
        }
        let request = match request {
            Option::Some(v) => v,
            Option::None => {
                return Option::None;
            },
        };
        let version = match version {
            Option::Some(v) => v,
            Option::None => {
                return Option::None;
            },
        };
        let width: Option<u32> = match &width_t {
            Option::Some(t) => match parse_u32(t.as_str()) {
                Option::Some(v) => Option::Some(v),
                Option::None => {
                    return Option::None;
                },
            },
            Option::None => Option::None,
        };
        let height: Option<u32> = match &height_t {
            Option::Some(t) => match parse_u32(t.as_str()) {
                Option::Some(v) => Option::Some(v),
                Option::None => {
                    return Option::None;
                },
            },
            Option::None => Option::None,
        };
        let elevation: Option<i32> = match &elevation_t {
            Option::Some(t) => match parse_i32(t.as_str()) {
                Option::Some(v) => Option::Some(v),
                Option::None => {
                    return Option::None;
                },
            },
            Option::None => Option::None,
        };
        Option::Some(
            WmsParams {
                request,
                version,
                layers,
                styles,
                bbox,
                width,
                height,
                srs,
                time,
                elevation,
                units,
            },
        )
    }

    /// Expands the `layers` value into the ordered list of resolved layer
    /// names. The list is never empty.
    pub fn parse_layers(&self) -> (r: Vec<String>)
        requires
            self.layers is Some,
        ensures
            r.deep_view() == spec_parse_layers(self.layers->Some_0@),
            r.len() >= 1,
    {
        parse_layers_str(self.layers.as_ref().unwrap().as_str())
    }
}

} // verus!
