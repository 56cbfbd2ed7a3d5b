use freewheeling::audio_block::{AudioBlock, AudioBlockIterator, ExtraChannel};

fn bits(v: &[f32]) -> Vec<u32> {
    v.iter().map(|x| x.to_bits()).collect()
}

fn chain(a: &[f32], b: &[f32]) -> AudioBlock {
    let mut first = AudioBlock { samples: bits(a), extra: None, next: None };
    first.link(AudioBlock { samples: bits(b), extra: None, next: None });
    first
}

fn all(b: &AudioBlock) -> Vec<f32> {
    (0..b.total_len()).map(|i| f32::from_bits(b.sample(i).unwrap())).collect()
}

#[test]
fn chains_read_across_blocks() {
    let c = chain(&[1.0, 2.0], &[3.0, 4.0, 5.0]);
    assert_eq!(c.total_len(), 5);
    assert_eq!(c.sample(3).map(f32::from_bits), Some(4.0));
    assert_eq!(c.sample(5), None);
    assert!(!c.is_stereo());
    assert_eq!(AudioBlock::new(3).samples, vec![0, 0, 0]);
}

#[test]
fn subchains_wrap_around_the_end() {
    let c = chain(&[1.0, 2.0], &[3.0, 4.0, 5.0]);
    let s = c.generate_subchain(3, 1, false);
    assert_eq!(s.samples, bits(&[4.0, 5.0]));
    let w = c.generate_subchain(1, 4, true);
    assert_eq!(w.samples, bits(&[2.0, 3.0, 4.0]));
    assert_eq!(w.extra.unwrap().samples, vec![0, 0, 0]);
    assert_eq!(c.generate_subchain(4, 9, false).samples, bits(&[5.0]));
    assert!(c.generate_subchain(6, 9, false).samples.is_empty());
}

#[test]
fn zero_silences_both_channels() {
    let mut c = chain(&[1.0, 2.0], &[3.0]);
    c.extra = Some(ExtraChannel { samples: bits(&[7.0, 8.0]) });
    c.zero();
    assert_eq!(all(&c), vec![0.0, 0.0, 0.0]);
    assert_eq!(c.extra.as_ref().unwrap().samples, vec![0, 0]);
    c.chop_chain();
    assert_eq!(c.total_len(), 2);
}

#[test]
fn stored_blocks_read_back() {
    let c = chain(&[1.5, -2.0], &[0.25]);
    let bytes = c.serialize();
    assert_eq!(&bytes[..4], b"FWB1");
    assert_eq!(bytes.len(), 12 + 12);
    let back = AudioBlock::deserialize(&bytes).unwrap();
    assert_eq!(all(&back), vec![1.5, -2.0, 0.25]);
    assert!(back.next.is_none());
    assert_eq!(AudioBlock::deserialize(b"FWB2xxxxxxxx").unwrap_err(), "invalid block");
    assert_eq!(AudioBlock::deserialize(&bytes[..20]).unwrap_err(), "failed to fill whole buffer");
    assert_eq!(AudioBlock::deserialize(b"FW").unwrap_err(), "failed to fill whole buffer");
}

#[test]
fn iterator_writes_and_reads_fragments() {
    let mut c = chain(&[0.0, 0.0, 0.0], &[0.0, 0.0]);
    {
        let mut it = AudioBlockIterator::new(&mut c, 2);
        assert_eq!(it.put_fragment(&bits(&[1.0, 2.0])), 2);
        assert_eq!(it.position, 2);
        it.jump(1);
        assert_eq!(it.get_fragment(), &bits(&[2.0, 0.0])[..]);
        it.next_fragment();
        assert_eq!(it.position, 3);
        assert_eq!(it.get_fragment(), &bits(&[0.0, 0.0])[..]);
        it.jump(3);
        assert_eq!(it.put_fragment(&bits(&[4.0, 5.0, 6.0])), 2);
        it.next_fragment();
        assert_eq!(it.position, 5);
        assert!(it.get_fragment().is_empty());
        it.stop();
        assert!(it.stopped());
    }
    assert_eq!(all(&c), vec![1.0, 2.0, 0.0, 4.0, 5.0]);
}

#[test]
fn stereo_writes_give_blocks_a_second_channel() {
    let mut c = chain(&[0.0, 0.0], &[0.0, 0.0]);
    {
        let mut it = AudioBlockIterator::new(&mut c, 4);
        it.jump(1);
        assert_eq!(it.put_fragment_stereo(&bits(&[1.0, 2.0, 3.0]), &bits(&[-1.0, -2.0])), 2);
    }
    assert_eq!(all(&c), vec![0.0, 1.0, 2.0, 0.0]);
    assert_eq!(c.extra.as_ref().unwrap().samples, bits(&[0.0, -1.0]));
    assert_eq!(c.next.as_ref().unwrap().extra.as_ref().unwrap().samples, bits(&[-2.0, 0.0]));
}
