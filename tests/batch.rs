use raw2wav::batch::accepts_entry;
use raw2wav::decode::decode;
use raw2wav::filter::FilterAlgorithm;
use raw2wav::format::{Endianness, SampleFormat};

#[test]
fn entries_below_minimum_are_skipped() {
    assert!(accepts_entry(true, 10, 10));
    assert!(accepts_entry(true, 11, 10));
    assert!(!accepts_entry(true, 9, 10));
    assert!(!accepts_entry(false, 100, 0));
    assert!(accepts_entry(true, 0, 0));
}

#[test]
fn output_bits_per_format() {
    assert_eq!(SampleFormat::Int8.bits_per_sample(), 8);
    assert_eq!(SampleFormat::Int16.bits_per_sample(), 16);
    assert_eq!(SampleFormat::Int24.bits_per_sample(), 24);
    assert_eq!(SampleFormat::Int32.bits_per_sample(), 32);
    assert_eq!(SampleFormat::Vox.bits_per_sample(), 16);
}

#[test]
fn only_second_order_high_pass_is_implemented() {
    assert!(FilterAlgorithm::Hpf2.is_implemented());
    let others = [
        FilterAlgorithm::Lpf1P,
        FilterAlgorithm::Lpf1,
        FilterAlgorithm::Hpf1,
        FilterAlgorithm::Lpf2,
        FilterAlgorithm::Bpf2,
        FilterAlgorithm::Bsf2,
    ];
    for a in others.iter() {
        assert!(!a.is_implemented());
    }
}

#[test]
fn files_convert_alike_in_any_order() {
    let files: Vec<Vec<u8>> = vec![vec![0x7F], vec![0x00], vec![0x88], vec![0x7F], vec![0x31]];
    let sequential: Vec<Vec<i32>> =
        files.iter().map(|f| decode(f, SampleFormat::Vox, Endianness::Little)).collect();
    let mut reversed: Vec<(usize, Vec<i32>)> = Vec::new();
    for i in (0..files.len()).rev() {
        reversed.push((i, decode(&files[i], SampleFormat::Vox, Endianness::Little)));
    }
    for (i, samples) in reversed.iter() {
        assert_eq!(*samples, sequential[*i]);
    }
    assert_eq!(sequential[0], sequential[3]);
    assert_eq!(sequential[0], vec![480, -528]);
}

#[test]
fn single_sample_files_in_every_format() {
    let files: Vec<Vec<u8>> = vec![vec![0x01, 0x02, 0x03, 0x04], vec![0xF0, 0x0F, 0xAA, 0x55]];
    let formats = [SampleFormat::Int8, SampleFormat::Int16, SampleFormat::Int24, SampleFormat::Int32, SampleFormat::Vox];
    for f in formats.iter() {
        let forward: Vec<Vec<i32>> = files.iter().map(|b| decode(b, *f, Endianness::Big)).collect();
        let backward_second = decode(&files[1], *f, Endianness::Big);
        let backward_first = decode(&files[0], *f, Endianness::Big);
        assert_eq!(forward[0], backward_first);
        assert_eq!(forward[1], backward_second);
    }
}
