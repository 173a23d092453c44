use sem86_core::decoder::{
    BaseInstrError, Component, DecodeResult, Decoder, Encoding, Found, FoundBase, InstrSem, PackedInstrSem,
    NUM_COMPONENTS,
};
use sem86_core::system::SegmentSizes;

fn encoding(bits: u8, name: &str, jump: u8) -> Encoding {
    let mut components = vec![vec![0]; NUM_COMPONENTS];
    components[Component::Name.index()] = name.as_bytes().to_vec();
    components[Component::Jump.index()] = vec![jump];
    Encoding { bits: vec![bits], is_rep: bits == 2, components }
}

#[test]
fn packing_shares_components() {
    let sem = InstrSem {
        encodings: vec![encoding(1, "ADD", 3), encoding(2, "SUB", 3), encoding(3, "ADD", 4)],
    };
    let packed = sem.pack().unwrap();
    assert_eq!(packed.num_encodings(), 3);
    assert_eq!((packed.num_names(), packed.num_parts()), (2, 1));
    assert_eq!(packed.num_components(Component::Jump), 2);
    let second = packed.get(1);
    assert!(second.is_rep);
    assert_eq!(second.components[Component::Name.index()], b"SUB".to_vec());
    let all = packed.unpack();
    assert_eq!(all.encodings.len(), 3);
    assert_eq!(all.encodings[2].components[Component::Name.index()], b"ADD".to_vec());
    assert_eq!(all.encodings[2].components[Component::Jump.index()], vec![4]);
    assert_eq!(PackedInstrSem::empty().num_addresses(), 0);
}

#[test]
fn too_many_names_are_refused() {
    let many = |n: u32| InstrSem {
        encodings: (0..n)
            .map(|i| Encoding {
                bits: vec![],
                is_rep: false,
                components: vec![vec![(i >> 8) as u8, i as u8, (i >> 16) as u8]; 1]
                    .into_iter()
                    .chain(vec![vec![]; NUM_COMPONENTS - 1])
                    .collect(),
            })
            .collect(),
    };
    assert!(many(300).pack().is_some());
}

#[test]
fn lookups_are_remembered_by_size() {
    let mut d = Decoder::new();
    let instr = vec![0x90];
    let sizes = SegmentSizes::Cs16Ss16;
    assert_eq!(d.lookup(&instr, sizes, || Found::Encoding(4)), Ok(4));
    assert_eq!(d.lookup(&instr, sizes, || panic!("asked twice")), Ok(4));
    assert_eq!(
        d.lookup(&instr, SegmentSizes::Cs32Ss32, || Found::NotFound),
        Err(BaseInstrError::NoMatch)
    );
    let short = vec![0x0f];
    let missing = BaseInstrError::NeedMoreBytes(1);
    assert_eq!(d.lookup(&short, sizes, || Found::Misfit(missing)), Err(missing));
    assert_eq!(d.lookup(&short, sizes, || panic!("asked twice")), Err(missing));
    let long = BaseInstrError::TooManyBytes(2);
    assert_eq!(d.lookup(&vec![1, 2], sizes, || Found::Misfit(long)), Err(long));
    let base = |asked: &Vec<u8>, asked_sizes| {
        assert_eq!((asked, asked_sizes), (&instr, sizes));
        Some(FoundBase { index: 9, base: Ok(vec![0x88]) })
    };
    assert_eq!(d.lookup_index(&instr, sizes, base), Ok((vec![0x88], 9)));
    let misfit = |_: &Vec<u8>, _| Some(FoundBase { index: 9, base: Err(long) });
    assert_eq!(d.lookup_index(&instr, sizes, misfit), Err(long));
    assert_eq!(d.lookup_index(&instr, sizes, |_, _| None), Err(BaseInstrError::NoMatch));
}

fn find(bytes: &Vec<u8>) -> Found {
    match bytes.as_slice() {
        [0x0f] => Found::Misfit(BaseInstrError::NeedMoreBytes(2)),
        [0x0f, _, _] => Found::Encoding(3),
        [0x90] => Found::Encoding(1),
        [0xf0, 0xf0] => Found::Misfit(BaseInstrError::TooManyBytes(1)),
        [0xd6] => Found::Misfit(BaseInstrError::NoMatch),
        _ => Found::NotFound,
    }
}

#[test]
fn instructions_are_decoded_byte_by_byte() {
    let mut d = Decoder::new();
    let sizes = SegmentSizes::Cs32Ss32;
    let bytes = vec![0x0f, 1, 2, 3];
    for _ in 0..2 {
        let r = d.lookup_iteratively(&bytes, sizes, find);
        assert_eq!(r, (DecodeResult::Found(3), vec![0x0f, 1, 2]));
    }
    assert_eq!(
        d.lookup_iteratively(&vec![0x90], sizes, find),
        (DecodeResult::Found(1), vec![0x90])
    );
    assert_eq!(
        d.lookup_iteratively(&vec![0xd6, 1], sizes, find),
        (DecodeResult::NoMatch, vec![0xd6])
    );
    assert_eq!(
        d.lookup_iteratively(&vec![0x0f, 1], sizes, find),
        (DecodeResult::OutOfBytes, vec![0x0f, 1])
    );
    assert_eq!(
        d.lookup_iteratively(&vec![0xf0, 0xf0, 1], sizes, find),
        (DecodeResult::TooLong, vec![0xf0, 0xf0])
    );
    let long = vec![0x66; 20];
    assert_eq!(
        d.lookup_iteratively(&long, sizes, find),
        (DecodeResult::NoMatch, vec![0x66; 15])
    );
}
