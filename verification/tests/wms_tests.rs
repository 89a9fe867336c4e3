use rewms::error::WmsError;
use rewms::wms::{WmsMinMax, WmsParams};

fn base_params() -> WmsParams {
    WmsParams {
        request: "GetMap".to_string(),
        version: "1.1.1".to_string(),
        layers: Some("L".to_string()),
        styles: Some("values/default".to_string()),
        bbox: Some("1,2,3,4".to_string()),
        width: Some(256),
        height: Some(256),
        srs: Some("EPSG:3857".to_string()),
        time: None,
        elevation: None,
        units: None,
    }
}

#[test]
fn passthrough_when_styles_absent() {
    let mut p = base_params();
    p.styles = None;
    assert!(p.passthrough_request());
}

#[test]
fn passthrough_when_styles_not_recognized() {
    let mut p = base_params();
    p.styles = Some("raster/x-Occam".to_string());
    assert!(p.passthrough_request());
}

#[test]
fn passthrough_when_not_getmap() {
    let mut p = base_params();
    p.request = "GetFeatureInfo".to_string();
    assert!(p.passthrough_request());
}

#[test]
fn intercept_values_style() {
    let p = base_params();
    assert!(!p.passthrough_request());
}

#[test]
fn intercept_particles_style() {
    let mut p = base_params();
    p.styles = Some("particles/flow".to_string());
    assert!(!p.passthrough_request());
}

#[test]
fn parse_layers_compound() {
    let mut p = base_params();
    p.layers = Some("A:B-group,C".to_string());
    assert_eq!(p.parse_layers(), vec!["A", "B", "C"]);
}

#[test]
fn parse_layers_plain_list() {
    let mut p = base_params();
    p.layers = Some("one,two".to_string());
    assert_eq!(p.parse_layers(), vec!["one", "two"]);
}

#[test]
fn parse_layers_single() {
    let mut p = base_params();
    p.layers = Some("GFS_WAVE_ATLANTIC/sig_height".to_string());
    assert_eq!(p.parse_layers(), vec!["GFS_WAVE_ATLANTIC/sig_height"]);
}

#[test]
fn minmax_url_shape() {
    let mut p = base_params();
    p.elevation = Some(-2);
    p.time = Some("2023-01-26T00:00:00.000Z".to_string());
    let url = p.get_minmax_url("https", "eds.ioos.us", "/ncWMS2", "L");
    assert_eq!(
        url,
        "https://eds.ioos.us/ncWMS2/wms/?service=WMS&request=GetMetadata&version=1.1.1\
         &item=minmax&layername=L&layers=L&styles=&srs=EPSG:3857&bbox=1,2,3,4\
         &width=256&height=256&elevation=-2&time=2023-01-26T00:00:00.000Z"
            .replace(" ", "")
    );
}

#[test]
fn reference_map_url_shape() {
    let p = base_params();
    let minmax = WmsMinMax {
        min: format!("{}", 1.08f64),
        max: format!("{}", 2.02f64),
    };
    let url = p.get_reference_map_url("https", "eds.ioos.us", "/ncWMS2", "L", &minmax);
    assert_eq!(
        url,
        "https://eds.ioos.us/ncWMS2/wms/?service=WMS&request=GetMap&version=1.1.1&layers=L\
         &styles=raster/seq-GreysRev&format=image/png;mode=32bit&transparent=true\
         &srs=EPSG:3857&bbox=1,2,3,4&width=256&height=256&colorscalerange=1.08,2.02\
         &numcolorbands=250"
            .replace(" ", "")
    );
}

#[test]
fn passthrough_url_keeps_query_bytes() {
    let query = "service=WMS&request=GetMap&styles=raster%2Fx-Occam&bbox=1,2,3,4";
    let url = rewms::wms::build_passthrough_url("https", "eds.ioos.us", "/ncWMS2", query);
    assert_eq!(url, format!("https://eds.ioos.us/ncWMS2/wms/?{query}"));
    assert!(url.ends_with(query));
}

#[test]
fn from_query_typical_request() {
    let q = "service=WMS&request=GetMap&version=1.1.1&layers=GFS_WAVE_ATLANTIC/sig_height\
             &styles=values%2Fdefault&colorscalerange=0%2C10&units=m&width=256&height=256\
             &format=image/png&transparent=true&time=2023-01-26T00:00:00.000Z&srs=EPSG:3857\
             &bbox=-7827151.696402049,4383204.9499851465,-7514065.628545966,4696291.017841227"
        .replace(" ", "");
    let p = WmsParams::from_query(&q).expect("query should parse");
    assert_eq!(p.request, "GetMap");
    assert_eq!(p.version, "1.1.1");
    assert_eq!(p.layers.as_deref(), Some("GFS_WAVE_ATLANTIC/sig_height"));
    assert_eq!(p.styles.as_deref(), Some("values/default"));
    assert_eq!(p.width, Some(256));
    assert_eq!(p.height, Some(256));
    assert_eq!(p.srs.as_deref(), Some("EPSG:3857"));
    assert_eq!(p.time.as_deref(), Some("2023-01-26T00:00:00.000Z"));
    assert_eq!(p.units.as_deref(), Some("m"));
    assert_eq!(p.elevation, None);
    assert_eq!(
        p.bbox.as_deref(),
        Some("-7827151.696402049,4383204.9499851465,-7514065.628545966,4696291.017841227")
    );
}

#[test]
fn from_query_uppercase_keys() {
    let p = WmsParams::from_query("REQUEST=GetMap&VERSION=1.3.0&WIDTH=10&ELEVATION=-5").unwrap();
    assert_eq!(p.request, "GetMap");
    assert_eq!(p.version, "1.3.0");
    assert_eq!(p.width, Some(10));
    assert_eq!(p.elevation, Some(-5));
}

#[test]
fn from_query_last_assignment_wins() {
    let p = WmsParams::from_query("request=GetMap&version=1&request=GetLegendGraphic").unwrap();
    assert_eq!(p.request, "GetLegendGraphic");
}

#[test]
fn from_query_plus_decodes_to_space() {
    let p = WmsParams::from_query("request=GetMap&version=1&units=m+s-1").unwrap();
    assert_eq!(p.units.as_deref(), Some("m s-1"));
}

#[test]
fn from_query_missing_request_rejected() {
    assert!(WmsParams::from_query("version=1.1.1&width=256").is_none());
}

#[test]
fn from_query_bad_escape_rejected() {
    assert!(WmsParams::from_query("request=GetMap&version=1&bbox=%zz").is_none());
}

#[test]
fn from_query_non_numeric_width_rejected() {
    assert!(WmsParams::from_query("request=GetMap&version=1&width=ten").is_none());
}

#[test]
fn error_messages() {
    assert_eq!(WmsError::InvalidLayer.message(), "Invalid layer in WMS request");
    assert_eq!(WmsError::DownstreamWmsError.message(), "Downstream wms error");
    assert_eq!(WmsError::ImageError.message(), "Image error");
}
