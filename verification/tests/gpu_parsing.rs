use gpu_probe::gpu::{parse_system_gpu_json, SystemGpuInfo};

fn parsed(text: &str) -> Vec<SystemGpuInfo> {
    parse_system_gpu_json(text).expect("well-formed JSON should parse")
}

#[test]
fn blank_and_missing_names_are_excluded_and_names_are_trimmed() {
    let text = "[{\"Name\":\"  NVIDIA RTX  \",\"AdapterRAM\":1048576},{\"Name\":\"   \"},{\"AdapterRAM\":123},{\"Name\":\"Intel\"}]";
    let gpus = parsed(text);
    assert_eq!(gpus.len(), 2);
    assert_eq!(gpus[0].name, "NVIDIA RTX");
    assert_eq!(gpus[0].vram_mb, Some(1));
    assert_eq!(gpus[1].name, "Intel");
    assert_eq!(gpus[1].vram_mb, None);
}

#[test]
fn adapter_ram_number_is_converted_to_megabytes() {
    let gpus = parsed("[{\"Name\":\"A\",\"AdapterRAM\":1048576}]");
    assert_eq!(gpus[0].vram_mb, Some(1));
}

#[test]
fn adapter_ram_numeric_string_is_converted_to_megabytes() {
    let gpus = parsed("[{\"Name\":\"A\",\"AdapterRAM\":\"2097152\"}]");
    assert_eq!(gpus[0].vram_mb, Some(2));
}

#[test]
fn adapter_ram_null_or_absent_yields_no_vram() {
    let gpus = parsed("[{\"Name\":\"A\",\"AdapterRAM\":null},{\"Name\":\"B\"}]");
    assert_eq!(gpus[0].vram_mb, None);
    assert_eq!(gpus[1].vram_mb, None);
}

#[test]
fn adapter_ram_float_negative_or_huge_yields_no_vram() {
    let gpus = parsed(
        "[{\"Name\":\"A\",\"AdapterRAM\":1.5},{\"Name\":\"B\",\"AdapterRAM\":-5},{\"Name\":\"C\",\"AdapterRAM\":18446744073709551616}]",
    );
    assert_eq!(gpus[0].vram_mb, None);
    assert_eq!(gpus[1].vram_mb, None);
    assert_eq!(gpus[2].vram_mb, None);
}

#[test]
fn adapter_ram_non_numeric_string_yields_no_vram() {
    let gpus = parsed("[{\"Name\":\"A\",\"AdapterRAM\":\"lots\"}]");
    assert_eq!(gpus[0].vram_mb, None);
}

#[test]
fn adapter_ram_rounds_down_to_whole_megabytes() {
    let gpus = parsed("[{\"Name\":\"A\",\"AdapterRAM\":2097151}]");
    assert_eq!(gpus[0].vram_mb, Some(1));
}

#[test]
fn single_object_is_treated_as_one_element_array() {
    let alone = parsed("{\"Name\":\"Solo\",\"AdapterRAM\":3145728}");
    let wrapped = parsed("[{\"Name\":\"Solo\",\"AdapterRAM\":3145728}]");
    assert_eq!(alone.len(), 1);
    assert_eq!(wrapped.len(), 1);
    assert_eq!(alone[0].name, wrapped[0].name);
    assert_eq!(alone[0].vram_mb, wrapped[0].vram_mb);
    assert_eq!(alone[0].name, "Solo");
    assert_eq!(alone[0].vram_mb, Some(3));
}

#[test]
fn non_object_entries_are_excluded() {
    let gpus = parsed("[1,true,null,\"x\",[],{\"Name\":\"Only\"}]");
    assert_eq!(gpus.len(), 1);
    assert_eq!(gpus[0].name, "Only");
}

#[test]
fn a_bare_non_object_document_yields_an_empty_list() {
    assert_eq!(parsed("42").len(), 0);
    assert_eq!(parsed("[]").len(), 0);
}

#[test]
fn malformed_json_yields_the_parser_error_text() {
    let err = parse_system_gpu_json("{not json").expect_err("malformed JSON must fail");
    let expected = serde_json::from_str::<serde_json::Value>("{not json")
        .expect_err("serde_json must reject this too")
        .to_string();
    assert_eq!(err, expected);
}
