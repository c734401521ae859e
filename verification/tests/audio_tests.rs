use namco163::audio::{
    audio_sample, enabled_channels_of, Namco163Audio, PlaybackRate, Timbre, Volume,
};

fn slot(i: usize) -> usize {
    // Channel index i is bound to slot 0x40 + 8 * (7 - i); channel 0 owns
    // the highest slot, 0x78.
    0x40 + 8 * (7 - i)
}

#[test]
fn register_decode_reads_slot_fields() {
    let mut chip = Namco163Audio::new();
    let base = slot(0);
    chip.internal_ram[base] = 0x34; // freq low
    chip.internal_ram[base + 2] = 0x12; // freq mid
    chip.internal_ram[base + 4] = 0b1100_0010; // freq high 2 bits + length bits
    chip.internal_ram[base + 1] = 0xCD; // phase low
    chip.internal_ram[base + 3] = 0xAB; // phase mid
    chip.internal_ram[base + 5] = 0x7F; // phase high
    chip.internal_ram[base + 6] = 0x55; // wave base address
    chip.internal_ram[base + 7] = 0xAF; // volume low nibble

    let ch = &chip.channels[0];
    assert_eq!(ch.frequency(&chip.internal_ram), 0x21234);
    assert_eq!(ch.phase(&chip.internal_ram), 0x7FABCD);
    assert_eq!(ch.length(&chip.internal_ram), 256 - 192);
    assert_eq!(ch.wave_address(&chip.internal_ram), 0x55);
    assert_eq!(ch.volume(&chip.internal_ram), 0x0F);
}

#[test]
fn write_phase_round_trips() {
    let mut chip = Namco163Audio::new();
    let wrote = {
        let ch = &chip.channels[3];
        ch.write_phase(&mut chip.internal_ram, 0xABCDEF);
        ch.phase(&chip.internal_ram)
    };
    assert_eq!(wrote, 0xABCDEF);
    let base = slot(3);
    assert_eq!(chip.internal_ram[base + 1], 0xEF);
    assert_eq!(chip.internal_ram[base + 3], 0xCD);
    assert_eq!(chip.internal_ram[base + 5], 0xAB);
}

#[test]
fn audio_sample_unpacks_nibbles() {
    let mut ram = vec![0u8; 0x80];
    ram[3] = 0xA5;
    // Even index reads the low nibble, odd index the high nibble.
    assert_eq!(audio_sample(&ram, 6), 0x5);
    assert_eq!(audio_sample(&ram, 7), 0xA);
}

#[test]
fn enabled_channels_decodes_bits_4_to_6() {
    let mut ram = vec![0u8; 0x80];
    assert_eq!(enabled_channels_of(&ram), 1);
    ram[0x7F] = 0b0111_0000;
    assert_eq!(enabled_channels_of(&ram), 8);
    ram[0x7F] = 0b0010_1111; // bits outside 4-6 are ignored
    assert_eq!(enabled_channels_of(&ram), 3);
}

#[test]
fn update_applies_bias_and_scale() {
    let mut chip = Namco163Audio::new();
    let base = slot(0);
    chip.internal_ram[base] = 0x00;
    chip.internal_ram[base + 2] = 0x00;
    chip.internal_ram[base + 4] = 0b1100_0001; // frequency 0x10000, length 64
    chip.internal_ram[base + 6] = 0x10; // wave base 16
    chip.internal_ram[base + 7] = 0x0F; // volume 15, one channel enabled
    // Sample index will be 16 + 1 = 17 (phase advances to 1 << 16), an odd
    // index, so the high nibble of byte 8 is read.
    chip.internal_ram[8] = 0xC0; // sample 12 in the high nibble

    let before = chip.channels[0].phase(&chip.internal_ram);
    assert_eq!(before, 0);
    chip.channels[0].update(&mut chip.internal_ram);
    let ch = &chip.channels[0];
    assert_eq!(ch.phase(&chip.internal_ram), 0x10000);
    // Output is (12 - 8) * 15.
    assert_eq!(ch.current_output, 60);
    assert_eq!(ch.tracked_volume, 15);
    // Estimated frequency: (1789773 * 0x10000) / (15 * 65536 * 64 * 1).
    match ch.rate() {
        PlaybackRate::FundamentalFrequency { num, den } => {
            assert_eq!(num, 1_789_773 * 0x10000);
            assert_eq!(den, 15 * 65536 * 64);
        }
    }
    assert!(ch.playing());
}

#[test]
fn update_wraps_phase_inside_window() {
    let mut chip = Namco163Audio::new();
    let base = slot(0);
    // length 4 (minimum window), frequency at the 18-bit maximum
    chip.internal_ram[base] = 0xFF;
    chip.internal_ram[base + 2] = 0xFF;
    chip.internal_ram[base + 4] = 0b1111_1111; // freq high 3, length 4
    for _ in 0..100 {
        chip.channels[0].update(&mut chip.internal_ram);
        let phase = chip.channels[0].phase(&chip.internal_ram);
        assert!((phase as u64) < (4u64 << 16));
    }
}

#[test]
fn clock_services_one_channel_every_15_ticks() {
    let mut chip = Namco163Audio::new();
    // Three channels enabled; give every slot frequency 1 so a service is
    // visible as a phase-low byte of 1.
    chip.internal_ram[0x7F] = 0b0010_0000;
    for i in 0..8 {
        chip.internal_ram[slot(i)] = 1;
    }
    // Tick 1 services channel 0; ticks 16 and 31 service channels 1 and 2;
    // tick 46 wraps back to channel 0.
    for tick in 1..=45u32 {
        chip.clock();
        let serviced: Vec<usize> = (0..8)
            .filter(|&i| chip.internal_ram[slot(i) + 1] != 0)
            .collect();
        match tick {
            1..=15 => assert_eq!(serviced, vec![0]),
            16..=30 => assert_eq!(serviced, vec![0, 1]),
            _ => assert_eq!(serviced, vec![0, 1, 2]),
        }
    }
    // Channels 3..7 were never touched.
    for i in 3..8 {
        assert_eq!(chip.internal_ram[slot(i) + 1], 0);
    }
    // The wrap: channel 0 is serviced again, advancing its phase to 2.
    chip.clock();
    assert_eq!(chip.internal_ram[slot(0) + 1], 2);
}

#[test]
fn lowering_enabled_count_takes_effect_at_wrap() {
    let mut chip = Namco163Audio::new();
    chip.internal_ram[0x7F] = 0b0111_0000; // all 8 enabled
    chip.clock(); // services channel 0, cursor moves to 1
    assert_eq!(chip.current_channel, 1);
    chip.internal_ram[0x7F] = 0b0001_0000; // now only 2 enabled
    for _ in 0..15 {
        chip.clock();
    }
    // Channel 1 was serviced; 1 + 1 >= 2 wraps the cursor to 0.
    assert_eq!(chip.current_channel, 0);
}

#[test]
fn muting_zeroes_mixed_output_but_not_simulation() {
    let mut chip = Namco163Audio::new();
    let base = slot(0);
    chip.internal_ram[base] = 1; // frequency 1
    chip.internal_ram[base + 7] = 0x0F; // volume 15
    chip.channels[0].mute();
    assert!(chip.channels[0].muted());
    chip.clock();
    // The chip's mixed output is forced to zero...
    assert_eq!(chip.current_output, 0);
    // ...but the phase still advanced and the channel still computed.
    assert_eq!(chip.internal_ram[base + 1], 1);
    assert_eq!(chip.channels[0].current_output, (0 - 8) * 15);
    chip.channels[0].unmute();
    assert!(!chip.channels[0].muted());
}

#[test]
fn record_output_pushes_into_every_ring() {
    let mut chip = Namco163Audio::new();
    chip.channels[2].current_output = -77;
    chip.record_output();
    chip.record_output();
    let buf = chip.channels[2].sample_buffer().buffer();
    assert_eq!(buf[0], -77);
    assert_eq!(buf[1], -77);
    let other = chip.channels[5].sample_buffer().buffer();
    assert_eq!(other[0], 0);
    assert_eq!(chip.channels[2].sample_buffer().len(), 32768);
}

#[test]
fn inspection_readouts() {
    let chip = Namco163Audio::new();
    let ch = &chip.channels[0];
    assert_eq!(ch.name(), "WAVE 8"); // channel 0 owns the highest slot
    assert_eq!(chip.channels[7].name(), "WAVE 1");
    assert_eq!(ch.chip(), "N163");
    assert_eq!(ch.min_sample(), -128);
    assert_eq!(ch.max_sample(), 127);
    assert!(!ch.playing());
    assert_eq!(ch.volume_readout(), Some(Volume::VolumeIndex { index: 0, max: 15 }));
    assert_eq!(ch.timbre(), None::<Timbre>);
}
