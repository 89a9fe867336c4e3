use rewms::error::WmsError;
use rewms::orchestrate::{plan_reference_fetch, plan_request, render_response, FetchPlan, Plan};
use rewms::state::AppState;
use rewms::wms::{WmsMinMax, WmsParams};

fn state() -> AppState {
    AppState::new("https://eds.ioos.us/ncWMS2")
}

fn intercepted_params(layers: &str) -> WmsParams {
    WmsParams {
        request: "GetMap".to_string(),
        version: "1.1.1".to_string(),
        layers: Some(layers.to_string()),
        styles: Some("values/default".to_string()),
        bbox: Some("1,2,3,4".to_string()),
        width: Some(64),
        height: Some(64),
        srs: Some("EPSG:3857".to_string()),
        time: None,
        elevation: None,
        units: None,
    }
}

fn minmax(min: &str, max: &str) -> WmsMinMax {
    WmsMinMax { min: min.to_string(), max: max.to_string() }
}

#[test]
fn plan_passthrough_forwards_query_verbatim() {
    let mut p = intercepted_params("A");
    p.styles = Some("raster/x-Occam".to_string());
    let query = "request=GetMap&styles=raster%2Fx-Occam&layers=A";
    match plan_request(&state(), &p, query) {
        Plan::Proxy { url } => {
            assert_eq!(url, format!("https://eds.ioos.us/ncWMS2/wms/?{query}"));
        }
        _ => panic!("expected a proxy plan"),
    }
}

#[test]
fn plan_intercept_builds_one_minmax_url_per_layer() {
    let p = intercepted_params("A,B");
    match plan_request(&state(), &p, "ignored=1") {
        Plan::FetchRanges { layers, urls } => {
            assert_eq!(layers, vec!["A", "B"]);
            assert_eq!(urls.len(), 2);
            for (layer, url) in layers.iter().zip(urls.iter()) {
                assert_eq!(
                    url,
                    &format!(
                        "https://eds.ioos.us/ncWMS2/wms/?service=WMS&request=GetMetadata\
                         &version=1.1.1&item=minmax&layername={layer}&layers={layer}&styles=\
                         &srs=EPSG:3857&bbox=1,2,3,4&width=64&height=64"
                    )
                    .replace(" ", "")
                );
            }
        }
        _ => panic!("expected a fetch-ranges plan"),
    }
}

#[test]
fn plan_intercept_without_layers_is_invalid() {
    let mut p = intercepted_params("A");
    p.layers = None;
    match plan_request(&state(), &p, "q=1") {
        Plan::Reject { error } => assert_eq!(error, WmsError::InvalidLayer),
        _ => panic!("expected a rejection"),
    }
}

#[test]
fn reference_urls_pair_ranges_by_position() {
    // Two layers with distinguishable synthetic ranges: whatever order the
    // fetches completed in, the results vector is positional, and each
    // layer's URL must carry its own range.
    let p = intercepted_params("first,second");
    let layers = vec!["first".to_string(), "second".to_string()];
    let results = vec![Some(minmax("1.5", "2.5")), Some(minmax("30", "40"))];
    match plan_reference_fetch(&state(), &p, &layers, &results) {
        FetchPlan::FetchImages { urls, ranges } => {
            assert_eq!(urls.len(), 2);
            assert!(urls[0].contains("layers=first&"));
            assert!(urls[0].contains("&colorscalerange=1.5,2.5&"));
            assert!(urls[1].contains("layers=second&"));
            assert!(urls[1].contains("&colorscalerange=30,40&"));
            assert_eq!(ranges[0].min, "1.5");
            assert_eq!(ranges[1].min, "30");
        }
        _ => panic!("expected a fetch-images plan"),
    }
}

#[test]
fn one_failed_range_fetch_fails_the_whole_request() {
    let p = intercepted_params("first,second,third");
    let layers = vec!["first".to_string(), "second".to_string(), "third".to_string()];
    let results = vec![Some(minmax("1", "2")), None, Some(minmax("3", "4"))];
    match plan_reference_fetch(&state(), &p, &layers, &results) {
        FetchPlan::Reject { error } => assert_eq!(error, WmsError::DownstreamWmsError),
        _ => panic!("a failed fetch must reject the request before any image fetch"),
    }
}

fn bin_words(min: f64, max: f64) -> Vec<u32> {
    let minf = min as f32;
    let step = (max as f32 - minf) / 249.0;
    (1..=250u32)
        .map(|b| u32::from_le_bytes((b as f32 * step + minf).to_le_bytes()))
        .collect()
}

fn png_of(width: u32, height: u32, data: Vec<u8>) -> Vec<u8> {
    let img = image::RgbaImage::from_raw(width, height, data).unwrap();
    let mut w = std::io::Cursor::new(Vec::new());
    img.write_to(&mut w, image::ImageOutputFormat::Png).unwrap();
    w.into_inner()
}

#[test]
fn render_fails_when_an_image_fetch_failed() {
    let tables = vec![bin_words(0.0, 1.0), bin_words(2.0, 3.0)];
    let images = vec![Some(png_of(1, 1, vec![5, 5, 5, 255])), None];
    assert_eq!(render_response(&images, &tables), Err(WmsError::DownstreamWmsError));
}

#[test]
fn render_fails_when_any_image_is_undecodable() {
    let tables = vec![bin_words(0.0, 1.0), bin_words(2.0, 3.0)];
    let images = vec![Some(vec![9u8, 9, 9]), Some(png_of(1, 1, vec![5, 5, 5, 255]))];
    assert_eq!(render_response(&images, &tables), Err(WmsError::ImageError));
}

#[test]
fn render_emits_the_last_layer() {
    let tables = vec![bin_words(0.0, 1.0), bin_words(100.0, 200.0)];
    let images = vec![
        Some(png_of(1, 1, vec![128, 0, 0, 255])),
        Some(png_of(1, 1, vec![128, 0, 0, 255])),
    ];
    let out = render_response(&images, &tables).expect("rendering should succeed");
    let img = image::load_from_memory(&out).unwrap().to_rgba8();
    let minf = 100.0f64 as f32;
    let step = (200.0f64 as f32 - minf) / 249.0;
    let expected = 126.0f32 * step + minf;
    assert_eq!(img.into_raw(), expected.to_le_bytes().to_vec());
}
