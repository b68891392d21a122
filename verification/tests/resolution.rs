use autofilm::resolution::{Resolution, ResolutionRepr};

fn repr_from_yaml(text: &str) -> ResolutionRepr {
    match serde_yaml::from_str::<serde_yaml::Value>(text).unwrap() {
        serde_yaml::Value::String(name) => ResolutionRepr::Preset(name),
        serde_yaml::Value::Mapping(map) => ResolutionRepr::Custom {
            width: map.get("width").and_then(|v| v.as_u64()).unwrap() as u32,
            height: map.get("height").and_then(|v| v.as_u64()).unwrap() as u32,
        },
        other => panic!("unexpected resolution value {other:?}"),
    }
}

fn repr_to_yaml(repr: ResolutionRepr) -> String {
    let value = match repr {
        ResolutionRepr::Preset(name) => serde_yaml::Value::String(name),
        ResolutionRepr::Custom { width, height } => {
            let mut map = serde_yaml::Mapping::new();
            map.insert("width".into(), width.into());
            map.insert("height".into(), height.into());
            serde_yaml::Value::Mapping(map)
        }
    };
    serde_yaml::to_string(&value).unwrap()
}

#[test]
fn parses_preset_and_custom_resolutions() {
    let preset = Resolution::from_repr(repr_from_yaml("1080p")).unwrap();
    let custom = Resolution::from_repr(repr_from_yaml("{width: 1600, height: 900}")).unwrap();

    assert_eq!(preset, Resolution::P1080);
    assert_eq!(preset.dimensions().unwrap(), (1920, 1080));
    assert_eq!(
        custom,
        Resolution::Custom {
            width: 1600,
            height: 900
        }
    );
    assert_eq!(custom.dimensions().unwrap(), (1600, 900));
}

#[test]
fn serializes_custom_resolution_with_named_dimensions() {
    let yaml = repr_to_yaml(
        Resolution::Custom {
            width: 1600,
            height: 900,
        }
        .to_repr(),
    );

    assert!(!yaml.contains("custom"));
    assert!(yaml.contains("width: 1600"));
    assert!(yaml.contains("height: 900"));
}

#[test]
fn rejects_invalid_custom_resolution() {
    let zero = Resolution::from_repr(repr_from_yaml("{width: 0, height: 1080}"));

    assert!(zero.is_err());
}

#[test]
fn presets_have_fixed_sizes_and_default_is_1080p() {
    assert_eq!(Resolution::P480.dimensions().unwrap(), (854, 480));
    assert_eq!(Resolution::P720.dimensions().unwrap(), (1280, 720));
    assert_eq!(Resolution::default(), Resolution::P1080);
}

#[test]
fn zero_side_and_unknown_preset_messages() {
    assert_eq!(
        Resolution::Custom { width: 10, height: 0 }.dimensions().unwrap_err(),
        "自定义分辨率的宽高必须大于零"
    );
    assert_eq!(
        Resolution::from_repr(ResolutionRepr::Preset("4k".to_string())).unwrap_err(),
        "不支持的分辨率预设: 4k"
    );
}

#[test]
fn written_resolutions_read_back_unchanged() {
    for r in [
        Resolution::P480,
        Resolution::P720,
        Resolution::P1080,
        Resolution::Custom { width: 7, height: 3 },
    ] {
        assert_eq!(Resolution::from_repr(r.to_repr()).unwrap(), r);
        assert_eq!(
            Resolution::from_repr(repr_from_yaml(&repr_to_yaml(r.to_repr()))).unwrap(),
            r
        );
    }
}
