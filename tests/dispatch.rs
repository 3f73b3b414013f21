use rs_vips::{
    call, call_option_string, ArgKind, ArgSpec, Double, Error, ErrorCode, OpClass, Output,
    ResourceKind, Role, Runtime, Setter, VOption, VipsImage, VipsSource, VipsTarget, VipsValue,
};

fn d(x: f64) -> Double {
    Double::from_bits(x.to_bits())
}

fn modes() -> Vec<String> {
    vec!["nearest".to_string(), "linear".to_string(), "cubic".to_string()]
}

/// A runtime with one ordinary operation, "transform", and an image in it.
fn setup() -> (Runtime, VipsImage) {
    let mut rt = Runtime::new();
    let class = OpClass::new("transform", "transform")
        .arg(ArgSpec::input("in", ArgKind::Object(ResourceKind::Image), true))
        .arg(ArgSpec::output("out", ArgKind::Object(ResourceKind::Image)))
        .arg(ArgSpec::input("flag", ArgKind::Bool, false))
        .arg(ArgSpec::input("count", ArgKind::Int, false))
        .arg(ArgSpec::input("size", ArgKind::Uint, false))
        .arg(ArgSpec::input("factor", ArgKind::Double, false))
        .arg(ArgSpec::input("label", ArgKind::Str, false))
        .arg(ArgSpec::enumeration("mode", modes(), false))
        .arg(ArgSpec::input("values", ArgKind::DoubleArray, false))
        .arg(ArgSpec::input("images", ArgKind::ImageArray, false));
    rt.register(class);
    let h = rt.new_resource(ResourceKind::Image);
    (rt, VipsImage { ctx: h })
}

fn output(opt: &VOption, i: usize) -> &VipsValue {
    opt.get(i).value()
}

#[test]
fn unknown_operation_fails() {
    let (mut rt, _img) = setup();
    let mut opt = VOption::new();
    let status = call(&mut rt, "does-not-exist", &mut opt);
    assert_ne!(status, 0);
    assert_eq!(rt.last_error(), Some(ErrorCode::OperationNotFound));
    assert_eq!(rt.objects.len(), 1);
    assert_eq!(opt.len(), 0);
}

#[test]
fn unknown_operation_touches_no_handle() {
    let (mut rt, img) = setup();
    let images = [img, img];
    let mut opt = VOption::new().set("images", &images[..]).set("in", &img);
    let status = call(&mut rt, "missing", &mut opt);
    assert_eq!(status, 1);
    assert_eq!(rt.refs(img.ctx), 1);
    assert_eq!(rt.objects.len(), 1);
}

#[test]
fn bool_round_trip() {
    let (mut rt, img) = setup();
    let mut opt = VOption::new()
        .set("in", &img)
        .set("flag", true)
        .set("flag", Output { value: false });
    assert_eq!(call(&mut rt, "transform", &mut opt), 0);
    assert!(matches!(output(&opt, 2), VipsValue::MutBool(true)));
}

#[test]
fn int_round_trip() {
    let (mut rt, img) = setup();
    let mut opt = VOption::new()
        .set("in", &img)
        .set("count", -17i32)
        .set("count", Output { value: 0i32 });
    assert_eq!(call(&mut rt, "transform", &mut opt), 0);
    assert!(matches!(output(&opt, 2), VipsValue::MutInt(-17)));
}

#[test]
fn double_round_trip() {
    let (mut rt, img) = setup();
    let mut opt = VOption::new()
        .set("in", &img)
        .set("factor", d(2.5))
        .set("factor", Output { value: d(0.0) });
    assert_eq!(call(&mut rt, "transform", &mut opt), 0);
    match output(&opt, 2) {
        VipsValue::MutDouble(x) => assert_eq!(f64::from_bits(x.to_bits()), 2.5),
        other => panic!("unexpected {:?}", other),
    }
}

#[test]
fn string_round_trip() {
    let (mut rt, img) = setup();
    let mut opt = VOption::new()
        .set("in", &img)
        .set("label", "hello")
        .set("label", Output { value: String::new() });
    assert_eq!(call(&mut rt, "transform", &mut opt), 0);
    match output(&opt, 2) {
        VipsValue::MutStr(s) => assert_eq!(s, "hello"),
        other => panic!("unexpected {:?}", other),
    }
}

#[test]
fn string_is_cut_at_nul() {
    let (mut rt, img) = setup();
    let mut opt = VOption::new()
        .set("in", &img)
        .set("label", "ab\0cd")
        .set("label", Output { value: "old".to_string() });
    assert_eq!(call(&mut rt, "transform", &mut opt), 0);
    match output(&opt, 2) {
        VipsValue::MutStr(s) => assert_eq!(s, "ab"),
        other => panic!("unexpected {:?}", other),
    }
}

#[test]
fn unset_property_reads_as_zero() {
    let (mut rt, img) = setup();
    let mut opt = VOption::new()
        .set("in", &img)
        .set("count", Output { value: 99i32 })
        .set("flag", Output { value: true });
    assert_eq!(call(&mut rt, "transform", &mut opt), 0);
    assert!(matches!(output(&opt, 1), VipsValue::MutInt(0)));
    assert!(matches!(output(&opt, 2), VipsValue::MutBool(false)));
}

#[test]
fn double_array_round_trip_appends() {
    let (mut rt, img) = setup();
    let values = [d(1.0), d(-2.0), d(3.5)];
    let mut opt = VOption::new()
        .set("in", &img)
        .set("values", &values[..])
        .set("values", Output { value: vec![d(9.0)] });
    assert_eq!(call(&mut rt, "transform", &mut opt), 0);
    match output(&opt, 2) {
        VipsValue::MutDoubleArray(v) => {
            let got: Vec<f64> = v.iter().map(|x| f64::from_bits(x.to_bits())).collect();
            assert_eq!(got, vec![9.0, 1.0, -2.0, 3.5]);
        },
        other => panic!("unexpected {:?}", other),
    }
}

#[test]
fn empty_double_array_leaves_destination() {
    let (mut rt, img) = setup();
    let values: [Double; 0] = [];
    let mut opt = VOption::new()
        .set("in", &img)
        .set("values", &values[..])
        .set("values", Output { value: vec![d(4.0)] });
    assert_eq!(call(&mut rt, "transform", &mut opt), 0);
    match output(&opt, 2) {
        VipsValue::MutDoubleArray(v) => assert_eq!(v.len(), 1),
        other => panic!("unexpected {:?}", other),
    }
}

#[test]
fn image_array_takes_one_reference_per_element() {
    let (mut rt, img) = setup();
    let other = VipsImage { ctx: rt.new_resource(ResourceKind::Image) };
    let single = VipsImage { ctx: rt.new_resource(ResourceKind::Image) };
    let images = [img, img, other];
    let mut opt = VOption::new().set("in", &single).set("images", &images[..]);
    assert_eq!(call(&mut rt, "transform", &mut opt), 0);
    assert_eq!(rt.refs(img.ctx), 3);
    assert_eq!(rt.refs(other.ctx), 2);
    assert_eq!(rt.refs(single.ctx), 1);
}

#[test]
fn image_array_references_stay_after_failed_build() {
    let (mut rt, img) = setup();
    let images = [img];
    let mut opt = VOption::new().set("images", &images[..]);
    assert_eq!(call(&mut rt, "transform", &mut opt), 1);
    assert_eq!(rt.last_error(), Some(ErrorCode::BuildFailed));
    assert_eq!(rt.refs(img.ctx), 2);
}

#[test]
fn output_image_is_a_new_resource() {
    let (mut rt, img) = setup();
    let mut opt = VOption::new().set("in", &img).set("out", Output { value: VipsImage { ctx: 0 } });
    assert_eq!(call(&mut rt, "transform", &mut opt), 0);
    assert!(matches!(output(&opt, 1), VipsValue::MutImage(2)));
    assert_eq!(rt.refs(2), 1);
    assert_eq!(rt.refs(img.ctx), 1);
}

#[test]
fn unknown_property_is_skipped() {
    let (mut rt, img) = setup();
    let mut opt = VOption::new()
        .set("in", &img)
        .set("nonexistent", 5i32)
        .set("count", 3i32)
        .set("count", Output { value: 0i32 });
    assert_eq!(call(&mut rt, "transform", &mut opt), 0);
    assert_eq!(rt.warning_count(), 1);
    assert_eq!(rt.warnings[0].code, ErrorCode::PropertyNotFound);
    assert_eq!(rt.warnings[0].subject, "nonexistent");
    assert!(matches!(output(&opt, 3), VipsValue::MutInt(3)));
}

#[test]
fn unknown_output_property_is_skipped() {
    let (mut rt, img) = setup();
    let mut opt = VOption::new().set("in", &img).set("nowhere", Output { value: 8i32 });
    assert_eq!(call(&mut rt, "transform", &mut opt), 0);
    assert_eq!(rt.warning_count(), 1);
    assert!(matches!(output(&opt, 1), VipsValue::MutInt(8)));
}

#[test]
fn unknown_property_with_missing_required_still_fails_build() {
    let (mut rt, _img) = setup();
    let mut opt = VOption::new().set("nonexistent", 5i32).set("count", Output { value: 7i32 });
    assert_eq!(call(&mut rt, "transform", &mut opt), 1);
    assert_eq!(rt.last_error(), Some(ErrorCode::BuildFailed));
    assert_eq!(rt.error.as_ref().map(|e| e.subject.clone()), Some("in".to_string()));
    assert!(matches!(output(&opt, 1), VipsValue::MutInt(7)));
}

#[test]
fn enum_nick_is_assigned() {
    let (mut rt, img) = setup();
    let mut opt = VOption::new()
        .set("in", &img)
        .set("mode", "cubic")
        .set("mode", Output { value: -1i32 });
    assert_eq!(call(&mut rt, "transform", &mut opt), 0);
    assert!(matches!(output(&opt, 2), VipsValue::MutInt(2)));
    assert_eq!(rt.warning_count(), 0);
}

#[test]
fn unknown_enum_nick_is_skipped() {
    let (mut rt, img) = setup();
    let mut opt = VOption::new()
        .set("in", &img)
        .set("mode", "bilinear")
        .set("mode", Output { value: -1i32 });
    assert_eq!(call(&mut rt, "transform", &mut opt), 0);
    assert!(matches!(output(&opt, 2), VipsValue::MutInt(0)));
    assert_eq!(rt.warnings[0].code, ErrorCode::EnumLookupFailed);
    assert_eq!(rt.last_error(), None);
}

#[test]
fn wrong_kind_is_skipped() {
    let (mut rt, img) = setup();
    let mut opt = VOption::new()
        .set("in", &img)
        .set("label", 4i32)
        .set("label", Output { value: "x".to_string() });
    assert_eq!(call(&mut rt, "transform", &mut opt), 0);
    assert_eq!(rt.warnings[0].code, ErrorCode::TypeMismatch);
    match output(&opt, 2) {
        VipsValue::MutStr(s) => assert_eq!(s, ""),
        other => panic!("unexpected {:?}", other),
    }
}

#[test]
fn uint_input_is_accepted() {
    let (mut rt, img) = setup();
    let mut opt = VOption::new().set("in", &img).set("size", 1u64 << 40);
    assert_eq!(call(&mut rt, "transform", &mut opt), 0);
    assert_eq!(rt.warning_count(), 0);
}

#[test]
fn option_string_assigns() {
    let (mut rt, img) = setup();
    let mut opt = VOption::new()
        .set("in", &img)
        .set("count", Output { value: 0i32 })
        .set("flag", Output { value: false })
        .set("mode", Output { value: 0i32 })
        .set("label", Output { value: String::new() });
    let status = call_option_string(&mut rt, "transform", "[count=-42,flag,mode=linear,label=a=b]", &mut opt);
    assert_eq!(status, 0);
    assert!(matches!(output(&opt, 1), VipsValue::MutInt(-42)));
    assert!(matches!(output(&opt, 2), VipsValue::MutBool(true)));
    assert!(matches!(output(&opt, 3), VipsValue::MutInt(1)));
    match output(&opt, 4) {
        VipsValue::MutStr(s) => assert_eq!(s, "a=b"),
        other => panic!("unexpected {:?}", other),
    }
}

#[test]
fn pairs_override_option_string() {
    let (mut rt, img) = setup();
    let mut opt = VOption::new().set("in", &img).set("count", 5i32).set("count", Output { value: 0i32 });
    assert_eq!(call_option_string(&mut rt, "transform", "count=1", &mut opt), 0);
    assert!(matches!(output(&opt, 2), VipsValue::MutInt(5)));
}

#[test]
fn option_string_int_limits() {
    let (mut rt, img) = setup();
    let mut opt = VOption::new().set("in", &img).set("count", Output { value: 0i32 });
    assert_eq!(call_option_string(&mut rt, "transform", "count=-2147483648", &mut opt), 0);
    assert!(matches!(output(&opt, 1), VipsValue::MutInt(i32::MIN)));
    let mut opt = VOption::new().set("in", &img).set("count", Output { value: 0i32 });
    assert_eq!(call_option_string(&mut rt, "transform", "count=2147483648", &mut opt), 1);
}

#[test]
fn malformed_option_strings_fail() {
    for s in ["bogus=1", "count=abc", "count=", "flag=maybe", "mode=bilinear", "values=1", "count"] {
        let (mut rt, img) = setup();
        let mut opt = VOption::new().set("in", &img).set("out", Output { value: VipsImage { ctx: 0 } });
        assert_eq!(call_option_string(&mut rt, "transform", s, &mut opt), 1, "{}", s);
        assert_eq!(rt.last_error(), Some(ErrorCode::MalformedOptionString));
        assert_eq!(rt.objects.len(), 1);
        assert!(matches!(output(&opt, 1), VipsValue::MutImage(0)));
    }
}

#[test]
fn option_string_with_empty_assignments() {
    let (mut rt, img) = setup();
    let mut opt = VOption::new().set("in", &img);
    assert_eq!(call_option_string(&mut rt, "transform", "[]", &mut opt), 0);
    assert_eq!(call_option_string(&mut rt, "transform", "flag=true,,count=1", &mut opt), 0);
}

#[test]
fn first_registered_class_wins() {
    let (mut rt, img) = setup();
    rt.register(OpClass::new("transform", "other"));
    let mut opt = VOption::new().set("count", 1i32);
    assert_eq!(call(&mut rt, "transform", &mut opt), 1);
    let mut opt = VOption::new().set("in", &img);
    assert_eq!(call(&mut rt, "transform", &mut opt), 0);
}

fn with_codecs() -> (Runtime, VipsImage) {
    let (mut rt, img) = setup();
    rt.register(
        OpClass::new("pngload", "pngload")
            .handles(Role::Load, ".png")
            .arg(ArgSpec::input("filename", ArgKind::Str, true))
            .arg(ArgSpec::output("out", ArgKind::Object(ResourceKind::Image)))
            .arg(ArgSpec::input("page", ArgKind::Int, false)),
    );
    rt.register(
        OpClass::new("pngsave", "pngsave")
            .handles(Role::Save, ".png")
            .arg(ArgSpec::input("in", ArgKind::Object(ResourceKind::Image), true))
            .arg(ArgSpec::input("filename", ArgKind::Str, true))
            .arg(ArgSpec::input("compression", ArgKind::Int, false)),
    );
    rt.register(
        OpClass::new("pngsave_target", "pngsave_target")
            .handles(Role::SaveTarget, ".png")
            .arg(ArgSpec::input("in", ArgKind::Object(ResourceKind::Image), true))
            .arg(ArgSpec::input("target", ArgKind::Object(ResourceKind::Target), true)),
    );
    (rt, img)
}

#[test]
fn new_from_file_loads() {
    let (mut rt, _img) = with_codecs();
    let loaded = VipsImage::new_from_file(&mut rt, "photo.png[page=2]").unwrap();
    assert_eq!(loaded.as_mut_ptr(), 2);
    assert_eq!(rt.refs(2), 1);
}

#[test]
fn new_from_file_without_loader_fails() {
    let (mut rt, _img) = with_codecs();
    assert_eq!(VipsImage::new_from_file(&mut rt, "photo.jpg"), Err(Error::InitializationError));
    assert_eq!(rt.objects.len(), 1);
}

#[test]
fn new_from_file_with_bad_options_fails() {
    let (mut rt, _img) = with_codecs();
    assert_eq!(VipsImage::new_from_file(&mut rt, "photo.png[page=x]"), Err(Error::InitializationError));
    assert_eq!(rt.last_error(), Some(ErrorCode::MalformedOptionString));
}

#[test]
fn write_to_file_saves() {
    let (mut rt, img) = with_codecs();
    assert_eq!(img.write_to_file(&mut rt, "out.png[compression=9]"), Ok(()));
    assert_eq!(rt.refs(img.ctx), 1);
    assert_eq!(img.write_to_file(&mut rt, "out.tif"), Err(Error::IOError));
    assert_eq!(img.write_to_file(&mut rt, "out.png[level=9]"), Err(Error::IOError));
}

#[test]
fn write_to_target_saves() {
    let (mut rt, img) = with_codecs();
    let target = VipsTarget { ctx: rt.new_resource(ResourceKind::Target) };
    assert_eq!(img.write_to_target(&mut rt, ".png", &target), Ok(()));
    assert_eq!(img.write_to_target(&mut rt, ".webp", &target), Err(Error::IOError));
}

#[test]
fn option_list_keeps_order_and_duplicates() {
    let mut opt = VOption::new();
    opt.add("a", 1i32);
    opt.add("a", 2i32);
    opt.add("b", Output { value: true });
    assert_eq!(opt.len(), 3);
    assert_eq!(opt.get(0).name(), "a");
    assert!(matches!(opt.get(1).value(), VipsValue::Int(2)));
    assert!(opt.get(0).is_input());
    assert!(!opt.get(2).is_input());
}

#[test]
fn new_from_file_with_opts_passes_pairs() {
    let (mut rt, _img) = with_codecs();
    let opt = VOption::new().set("page", 3i32);
    let loaded = VipsImage::new_from_file_with_opts(&mut rt, "scan.png", opt).unwrap();
    assert_eq!(loaded.as_mut_ptr(), 2);
    let opt = VOption::new().set("pages", 3i32);
    assert!(VipsImage::new_from_file_with_opts(&mut rt, "scan.png", opt).is_ok());
    assert_eq!(rt.warnings[0].code, ErrorCode::PropertyNotFound);
}

#[test]
fn write_to_file_with_opts_passes_pairs() {
    let (mut rt, img) = with_codecs();
    let opt = VOption::new().set("compression", 6i32);
    assert_eq!(img.write_to_file_with_opts(&mut rt, "out.png", opt), Ok(()));
    assert_eq!(rt.warning_count(), 0);
}

#[test]
fn write_to_target_with_opts_passes_pairs() {
    let (mut rt, img) = with_codecs();
    let target = VipsTarget { ctx: rt.new_resource(ResourceKind::Target) };
    let opt = VOption::new().set("strip", true);
    assert_eq!(img.write_to_target_with_opts(&mut rt, ".png", &target, opt), Ok(()));
    assert_eq!(rt.warnings[0].code, ErrorCode::PropertyNotFound);
}

#[test]
fn minpos_and_maxpos_dispatch() {
    let (mut rt, img) = setup();
    rt.register(
        OpClass::new("min", "min")
            .arg(ArgSpec::input("in", ArgKind::Object(ResourceKind::Image), true))
            .arg(ArgSpec::output("x", ArgKind::Double))
            .arg(ArgSpec::output("y", ArgKind::Double)),
    );
    let (x, y) = img.minpos(&mut rt).unwrap();
    assert_eq!((x.to_bits(), y.to_bits()), (0, 0));
    assert_eq!(img.maxpos(&mut rt), Err(Error::OperationError));
    assert_eq!(rt.last_error(), Some(ErrorCode::OperationNotFound));
}

#[test]
fn runtime_checks_well_formed() {
    let (rt, _img) = setup();
    assert!(rt.well_formed());
}

#[test]
fn new_image_and_release() {
    let mut rt = Runtime::new();
    let img = VipsImage::new(&mut rt);
    assert_eq!(img.as_mut_ptr(), 1);
    assert_eq!(rt.refs(1), 1);
    rt.release(1);
    assert_eq!(rt.refs(1), 0);
    rt.release(1);
    assert_eq!(rt.refs(1), 0);
    rt.release(0);
    rt.release(7);
    assert_eq!(rt.objects.len(), 1);
}

fn with_buffer_loader() -> (Runtime, VipsImage) {
    let (mut rt, img) = setup();
    rt.register(
        OpClass::new("pngload_buffer", "pngload_buffer")
            .sniffs(Role::LoadBuffer, &[0x89, b'P', b'N', b'G'])
            .arg(ArgSpec::input("buffer", ArgKind::Object(ResourceKind::Blob), true))
            .arg(ArgSpec::output("out", ArgKind::Object(ResourceKind::Image)))
            .arg(ArgSpec::input("page", ArgKind::Int, false)),
    );
    (rt, img)
}

#[test]
fn new_from_buffer_loads_and_releases_blob() {
    let (mut rt, _img) = with_buffer_loader();
    let bytes = [0x89, b'P', b'N', b'G', 0x0d, 0x0a];
    let loaded = VipsImage::new_from_buffer(&mut rt, &bytes, "page=1").unwrap();
    assert_eq!(loaded.as_mut_ptr(), 3);
    assert_eq!(rt.refs(2), 0);
    assert_eq!(rt.refs(3), 1);
}

#[test]
fn new_from_buffer_without_loader_fails() {
    let (mut rt, _img) = with_buffer_loader();
    assert_eq!(VipsImage::new_from_buffer(&mut rt, b"GIF89a", ""), Err(Error::InitializationError));
    assert_eq!(VipsImage::new_from_buffer(&mut rt, &[0x89, b'P'], ""), Err(Error::InitializationError));
    assert_eq!(rt.objects.len(), 1);
}

#[test]
fn new_from_buffer_with_opts_failure_releases_blob() {
    let (mut rt, _img) = with_buffer_loader();
    let bytes = [0x89, b'P', b'N', b'G'];
    let opt = VOption::new().set("page", "two");
    assert!(VipsImage::new_from_buffer_with_opts(&mut rt, &bytes, "page=x", opt).is_err());
    assert_eq!(rt.last_error(), Some(ErrorCode::MalformedOptionString));
    assert_eq!(rt.refs(2), 0);
}

#[test]
fn fixed_size_arrays_are_accepted() {
    let (mut rt, img) = setup();
    let other = VipsImage::new(&mut rt);
    let mut opt = VOption::new()
        .set("in", &img)
        .set("images", &[other, other])
        .set("values", &[d(0.5), d(0.25)])
        .set("values", Output { value: Vec::new() });
    assert_eq!(call(&mut rt, "transform", &mut opt), 0);
    assert_eq!(rt.refs(other.ctx), 3);
    match output(&opt, 3) {
        VipsValue::MutDoubleArray(v) => assert_eq!(v.len(), 2),
        other => panic!("unexpected {:?}", other),
    }
}

#[test]
fn new_from_source_loads() {
    let (mut rt, _img) = setup();
    rt.register(
        OpClass::new("gifload_source", "gifload_source")
            .sniffs(Role::LoadSource, b"GIF8")
            .arg(ArgSpec::input("source", ArgKind::Object(ResourceKind::Source), true))
            .arg(ArgSpec::output("out", ArgKind::Object(ResourceKind::Image))),
    );
    let source = VipsSource { ctx: rt.new_resource(ResourceKind::Source), sniff: b"GIF89a".to_vec() };
    let loaded = VipsImage::new_from_source(&mut rt, &source, "").unwrap();
    assert_eq!(loaded.as_mut_ptr(), 3);
    assert_eq!(rt.refs(source.ctx), 1);
    let png = VipsSource { ctx: source.ctx, sniff: vec![0x89, b'P'] };
    assert_eq!(VipsImage::new_from_source(&mut rt, &png, ""), Err(Error::InitializationError));
    let opt = VOption::new().set("source", &png);
    assert!(VipsImage::new_from_source_with_opts(&mut rt, &source, "", opt).is_ok());
}

#[test]
fn uncollected_output_is_released_with_the_node() {
    let (mut rt, img) = setup();
    let mut opt = VOption::new().set("in", &img);
    assert_eq!(call(&mut rt, "transform", &mut opt), 0);
    assert_eq!(rt.objects.len(), 2);
    assert_eq!(rt.refs(2), 0);
    assert_eq!(rt.refs(img.ctx), 1);
}

#[test]
fn each_collecting_destination_owns_a_reference() {
    let (mut rt, img) = setup();
    let mut opt = VOption::new()
        .set("in", &img)
        .set("out", Output { value: VipsImage { ctx: 0 } })
        .set("out", Output { value: VipsImage { ctx: 0 } })
        .set("in", Output { value: VipsImage { ctx: 0 } });
    assert_eq!(call(&mut rt, "transform", &mut opt), 0);
    assert!(matches!(output(&opt, 1), VipsValue::MutImage(2)));
    assert!(matches!(output(&opt, 2), VipsValue::MutImage(2)));
    assert!(matches!(output(&opt, 3), VipsValue::MutImage(1)));
    assert_eq!(rt.refs(2), 2);
    assert_eq!(rt.refs(img.ctx), 2);
}

#[test]
fn unstored_image_array_takes_no_reference() {
    let (mut rt, img) = setup();
    let images = [img, img];
    let mut opt = VOption::new()
        .set("in", &img)
        .set("nonexistent", &images[..])
        .set("values", &images[..]);
    assert_eq!(call(&mut rt, "transform", &mut opt), 0);
    assert_eq!(rt.refs(img.ctx), 1);
    assert_eq!(rt.warnings[0].code, ErrorCode::PropertyNotFound);
    assert_eq!(rt.warnings[1].code, ErrorCode::TypeMismatch);
}

#[test]
fn inert_pair_in_the_middle_changes_nothing_else() {
    let build = |extra: bool| {
        let (mut rt, img) = setup();
        let mut opt = VOption::new().set("in", &img);
        if extra {
            opt.add("mode", "bilinear");
        }
        opt.add("count", 4i32);
        opt.add("out", Output { value: VipsImage { ctx: 0 } });
        opt.add("count", Output { value: 0i32 });
        opt.add("mode", Output { value: 9i32 });
        let status = call(&mut rt, "transform", &mut opt);
        let tail: Vec<String> = (opt.len() - 3..opt.len()).map(|i| format!("{:?}", opt.get(i).value())).collect();
        (status, tail, rt.refs(2))
    };
    assert_eq!(build(true), build(false));
    assert_eq!(build(true).0, 0);
}
