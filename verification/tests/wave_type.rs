use embedded_dsp::synthesis::WaveType;

fn is_band_limited(wave: &WaveType) -> bool {
    match wave {
        WaveType::Sine
        | WaveType::Triangle
        | WaveType::Saw
        | WaveType::Ramp
        | WaveType::Square => false,
        WaveType::PolyBLEPTri | WaveType::PolyBLEPSaw | WaveType::PolyBLEPSquare => true,
    }
}

#[test]
fn wave_types_cover_plain_and_band_limited_shapes() {
    let all = [
        WaveType::Sine,
        WaveType::Triangle,
        WaveType::Saw,
        WaveType::Ramp,
        WaveType::Square,
        WaveType::PolyBLEPTri,
        WaveType::PolyBLEPSaw,
        WaveType::PolyBLEPSquare,
    ];
    let limited = all.iter().filter(|w| is_band_limited(w)).count();
    assert_eq!(all.len(), 8);
    assert_eq!(limited, 3);
}
