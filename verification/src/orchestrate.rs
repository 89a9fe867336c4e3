//! The per-request orchestration protocol, as pure decision steps. The
//! surrounding process performs the HTTP calls that each step plans (all
//! fetches of one stage concurrently, under one timeout) and hands the
//! results back positionally; every decision — classification, layer
//! resolution, URL construction, fail-fast error mapping, pairing results
//! with layers by position rather than by completion order — is made here.

use vstd::prelude::*;

use crate::codec::{image_decodes, png_decoded_rgba, spec_transcode_image, transcode_image};
use crate::error::WmsError;
use crate::state::AppState;
use crate::wms::{
    build_passthrough_url, spec_is_passthrough, spec_minmax_url, spec_parse_layers,
    spec_passthrough_url, spec_reference_map_url, WmsMinMax, WmsParams,
};

verus! {

/// The first decision on an inbound request: forward it verbatim, fetch the
/// per-layer min/max ranges of an intercepted request, or reject it.
pub enum Plan {
    /// Forward to this downstream URL and stream the answer back unmodified.
    Proxy { url: String },
    /// Intercepted: fetch `urls[i]` to resolve the min/max range of
    /// `layers[i]`, for every `i`, concurrently.
    FetchRanges { layers: Vec<String>, urls: Vec<String> },
    /// The request cannot be served.
    Reject { error: WmsError },
}

/// The second decision: fetch the per-layer reference images, or reject the
/// whole request because a range fetch failed.
pub enum FetchPlan {
    /// Fetch `urls[i]` to obtain the reference image of layer `i`, whose
    /// resolved range is `ranges[i]`, for every `i`, concurrently.
    FetchImages { urls: Vec<String>, ranges: Vec<WmsMinMax> },
    /// The request cannot be served; no image fetch is issued.
    Reject { error: WmsError },
}

/// Classifies the request and plans the first stage. A passthrough request
/// maps to a `Proxy` plan carrying the inbound query string byte for byte;
/// an intercepted request without a `layers` value is rejected with
/// `InvalidLayer`; any other intercepted request maps to one min/max URL per
/// resolved layer, in layer order.
pub fn plan_request(state: &AppState, params: &WmsParams, raw_query: &str) -> (r: Plan)
    requires
        !spec_is_passthrough(*params) && params.layers is Some ==> params.srs is Some
            && params.bbox is Some && params.width is Some && params.height is Some,
    ensures
        spec_is_passthrough(*params) ==> (r matches Plan::Proxy { url } && url@
            == spec_passthrough_url(
            state.wms_scheme@,
            state.wms_host@,
            state.wms_path@,
            raw_query@,
        )),
        !spec_is_passthrough(*params) && params.layers is None ==> (r matches Plan::Reject {
            error,
        } && error == WmsError::InvalidLayer),
        !spec_is_passthrough(*params) && params.layers is Some ==> (r matches Plan::FetchRanges {
            layers,
            urls,
        } && layers.deep_view() == spec_parse_layers(params.layers->Some_0@) && layers@.len() >= 1
            && urls@.len() == layers@.len() && (forall|i: int|
            0 <= i < urls@.len() ==> urls@[i]@ == spec_minmax_url(
                state.wms_scheme@,
                state.wms_host@,
                state.wms_path@,
                *params,
                layers@[i]@,
            ))),
{
    if params.passthrough_request() {
        let url = build_passthrough_url(
            state.wms_scheme.as_str(),
            state.wms_host.as_str(),
            state.wms_path.as_str(),
            raw_query,
        );
        return Plan::Proxy { url };
    }
    if params.layers.is_none() {
        return Plan::Reject { error: WmsError::InvalidLayer };
    }
    let layers = params.parse_layers();
    let mut urls: Vec<String> = Vec::new();
    let n = layers.len();
    let mut i: usize = 0;
    while i < n
        invariant
            n == layers@.len(),
            0 <= i <= n,
            urls@.len() == i,
            params.srs is Some,
            params.bbox is Some,
            params.width is Some,
            params.height is Some,
            forall|j: int|
                0 <= j < i ==> urls@[j]@ == spec_minmax_url(
                    state.wms_scheme@,
                    state.wms_host@,
                    state.wms_path@,
                    *params,
                    layers@[j]@,
                ),
        decreases n - i,
    {
        let url = params.get_minmax_url(
            state.wms_scheme.as_str(),
            state.wms_host.as_str(),
            state.wms_path.as_str(),
            layers[i].as_str(),
        );
        urls.push(url);
        i = i + 1;
    }
    Plan::FetchRanges { layers, urls }
}

/// Plans the second stage from the positional outcomes of the range fetches:
/// if any single fetch failed, the whole request is rejected with
/// `DownstreamWmsError` and no reference image is requested; otherwise each
/// layer's reference-image URL is built from that same layer's range —
/// pairing is by position, never by completion order.
pub fn plan_reference_fetch(
    state: &AppState,
    params: &WmsParams,
    layers: &Vec<String>,
    results: &Vec<Option<WmsMinMax>>,
) -> (r: FetchPlan)
    requires
        results@.len() == layers@.len(),
        params.srs is Some,
        params.bbox is Some,
        params.width is Some,
        params.height is Some,
    ensures
        (exists|i: int| 0 <= i < results@.len() && results@[i] is None)
            ==> (r matches FetchPlan::Reject { error } && error == WmsError::DownstreamWmsError),
        (forall|i: int| 0 <= i < results@.len() ==> results@[i] is Some)
            ==> (r matches FetchPlan::FetchImages { urls, ranges } && urls@.len() == layers@.len()
            && ranges@.len() == layers@.len() && (forall|i: int|
            0 <= i < layers@.len() ==> ranges@[i] == results@[i]->Some_0 && urls@[i]@
                == spec_reference_map_url(
                state.wms_scheme@,
                state.wms_host@,
                state.wms_path@,
                *params,
                layers@[i]@,
                results@[i]->Some_0,
            ))),
{
    let n = layers.len();
    let mut urls: Vec<String> = Vec::new();
    let mut ranges: Vec<WmsMinMax> = Vec::new();
    let mut i: usize = 0;
    while i < n
        invariant
            n == layers@.len(),
            results@.len() == n,
            0 <= i <= n,
            urls@.len() == i,
            ranges@.len() == i,
            params.srs is Some,
            params.bbox is Some,
            params.width is Some,
            params.height is Some,
            forall|j: int| 0 <= j < i ==> results@[j] is Some,
            forall|j: int|
                0 <= j < i ==> ranges@[j] == results@[j]->Some_0 && urls@[j]@
                    == spec_reference_map_url(
                    state.wms_scheme@,
                    state.wms_host@,
                    state.wms_path@,
                    *params,
                    layers@[j]@,
                    results@[j]->Some_0,
                ),
        decreases n - i,
    {
        match &results[i] {
            Option::None => {
                return FetchPlan::Reject { error: WmsError::DownstreamWmsError };
            },
            Option::Some(minmax) => {
                let url = params.get_reference_map_url(
                    state.wms_scheme.as_str(),
                    state.wms_host.as_str(),
                    state.wms_path.as_str(),
                    layers[i].as_str(),
                    minmax,
                );
                urls.push(url);
                ranges.push(WmsMinMax { min: minmax.min.clone(), max: minmax.max.clone() });
            },
        }
        i = i + 1;
    }
    FetchPlan::FetchImages { urls, ranges }
}

/// Assembles the response body from the positional outcomes of the image
/// fetches and the per-layer bin tables: a failed fetch rejects the request
/// with `DownstreamWmsError`, an undecodable image with `ImageError`;
/// otherwise the last layer's image is transcoded and re-encoded (the
/// documented single-layer-output limitation: earlier layers are fetched
/// and checked but not blended).
pub fn render_response(images: &Vec<Option<Vec<u8>>>, tables: &Vec<Vec<u32>>) -> (r: Result<
    Vec<u8>,
    WmsError,
>)
    requires
        images@.len() == tables@.len(),
        images@.len() >= 1,
        forall|i: int| 0 <= i < tables@.len() ==> #[trigger] tables@[i]@.len() == 250,
    ensures
        (exists|i: int| 0 <= i < images@.len() && images@[i] is None) ==> r == Result::<
            Vec<u8>,
            WmsError,
        >::Err(WmsError::DownstreamWmsError),
        (forall|i: int| 0 <= i < images@.len() ==> images@[i] is Some) && (exists|i: int|
            0 <= i < images@.len() && png_decoded_rgba(images@[i]->Some_0@) is None) ==> r
            == Result::<Vec<u8>, WmsError>::Err(WmsError::ImageError),
        (forall|i: int|
            0 <= i < images@.len() ==> images@[i] is Some && png_decoded_rgba(
                images@[i]->Some_0@,
            ) is Some) ==> spec_transcode_image(
            images@.last()->Some_0@,
            tables@.last()@,
            r,
        ),
{
    let n = images.len();
    let mut i: usize = 0;
    while i < n
        invariant
            n == images@.len(),
            0 <= i <= n,
            forall|j: int| 0 <= j < i ==> images@[j] is Some,
        decreases n - i,
    {
        if images[i].is_none() {
            return Result::Err(WmsError::DownstreamWmsError);
        }
        i = i + 1;
    }
    let mut i: usize = 0;
    while i < n
        invariant
            n == images@.len(),
            0 <= i <= n,
            forall|j: int| 0 <= j < n ==> images@[j] is Some,
            forall|j: int| 0 <= j < i ==> png_decoded_rgba(images@[j]->Some_0@) is Some,
        decreases n - i,
    {
        if !image_decodes(images[i].as_ref().unwrap()) {
            return Result::Err(WmsError::ImageError);
        }
        i = i + 1;
    }
    transcode_image(images[n - 1].as_ref().unwrap(), &tables[n - 1])
}

} // verus!
