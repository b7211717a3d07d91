use vmm_sys_util::named_object::{
    build_creator_only_sd, creator_only_attributes, creator_only_sd, reject_preexisting,
    to_wide_name, unique_name, BuildSd, Descriptor, SdReply,
};
use vmm_sys_util::error::{Error, ErrorKind};

fn wide(s: &str) -> Vec<u16> {
    s.encode_utf16().collect()
}

#[test]
fn minted_names_are_long_distinct_and_session_local() {
    let a = unique_name("t-", [0xA5; 16]);
    let mut bytes = [0xA5; 16];
    bytes[15] = 0xA4;
    let b = unique_name("t-", bytes);
    assert_ne!(a, b);
    // Explicit namespace + prefix + 32 hex chars of 128 random bits.
    assert!(a.starts_with("Local\\t-"));
    assert_eq!(a.len(), 6 + 2 + 32);
}

#[test]
fn a_name_spells_its_bytes() {
    let mut bytes = [0u8; 16];
    for (i, b) in bytes.iter_mut().enumerate() {
        *b = (i * 17) as u8;
    }
    assert_eq!(unique_name("x", bytes), "Local\\x00112233445566778899aabbccddeeff");
}

#[test]
fn a_name_with_an_interior_nul_is_refused() {
    assert!(to_wide_name("bad\0name").is_err());
    assert_eq!(to_wide_name("fine").unwrap().last(), Some(&0));
}

#[test]
fn a_wide_name_is_the_name_and_a_null() {
    assert_eq!(to_wide_name("").unwrap(), vec![0]);
    assert_eq!(to_wide_name("a\u{1D11E}").unwrap(), vec![0x61, 0xD834, 0xDD1E, 0]);
    assert_eq!(to_wide_name("\0").unwrap_err().kind(), Some(ErrorKind::InvalidInput));
}

#[test]
fn an_object_that_exists_already_is_refused() {
    assert_eq!(reject_preexisting(0x40, 0).unwrap(), 0x40);
    let err = reject_preexisting(0x40, 183).unwrap_err();
    assert_eq!(err.kind(), Some(ErrorKind::AlreadyExists));
    assert_eq!(
        err.message(),
        Some("an object with this name already exists (possible name squatting)")
    );
}

/// Build a descriptor for the user `sid`, which the system places at `address`.
fn build(sid: &str, address: usize) -> Result<usize, Error> {
    let mut step = build_creator_only_sd();
    loop {
        let reply = match &step {
            BuildSd::OpenToken => SdReply::Token(Ok(0x30)),
            BuildSd::QuerySize { token: 0x30 } => SdReply::Size { len: 44, last_error: 122 },
            BuildSd::Query { token: 0x30, len: 44 } => SdReply::User(Ok(())),
            BuildSd::ConvertSid { token: 0x30 } => SdReply::Sid(Ok(wide(sid))),
            BuildSd::ConvertDescriptor { token: 0x30, sddl } => {
                assert_eq!(*sddl, wide(&format!("D:P(A;;GA;;;{sid})\0")));
                SdReply::Descriptor(Ok(address))
            }
            BuildSd::Done { token: Some(0x30), .. } => break,
            other => panic!("unexpected {other:?}"),
        };
        step = step.next(reply);
    }
    match step {
        BuildSd::Done { result, .. } => result,
        other => panic!("not over: {other:?}"),
    }
}

#[test]
fn the_creator_only_descriptor_builds_and_caches() {
    let mut kept = 0usize;
    let mut attributes = || {
        let mut step = creator_only_sd(kept);
        loop {
            step = match step {
                Descriptor::Build => step.built(build("S-1-5-21-1-2-3-1001", 0x8000)),
                Descriptor::Publish(built) => {
                    let found = kept;
                    if kept == 0 {
                        kept = built;
                    }
                    step.published(found)
                }
                Descriptor::Use { descriptor, surplus } => {
                    assert_eq!(surplus, None);
                    return creator_only_attributes(Ok(descriptor));
                }
                Descriptor::Failed(e) => return creator_only_attributes(Err(e)),
            };
        }
    };
    let first = attributes().unwrap();
    let second = attributes().unwrap();
    assert_ne!(first.descriptor, 0);
    // Cached: both calls hand out the same process-lifetime descriptor.
    assert_eq!(first.descriptor, second.descriptor);
    assert!(!first.inherit);
}

#[test]
fn a_descriptor_that_lost_the_race_is_surplus() {
    let step = creator_only_sd(0).built(Ok(0x8000)).published(0x9000);
    match step {
        Descriptor::Use { descriptor, surplus } => {
            assert_eq!(descriptor, 0x9000);
            assert_eq!(surplus, Some(0x8000));
        }
        other => panic!("unexpected {other:?}"),
    }
    let step = creator_only_sd(0).built(Err(Error::Os(5)));
    assert!(matches!(step, Descriptor::Failed(Error::Os(5))));
}

fn failure(step: BuildSd) -> (Option<usize>, Option<i32>) {
    match step {
        BuildSd::Done { token, result: Err(e) } => (token, e.raw_os_error()),
        other => panic!("unexpected {other:?}"),
    }
}

#[test]
fn each_call_of_a_build_can_fail_and_the_token_is_closed() {
    let opened = || build_creator_only_sd().next(SdReply::Token(Ok(0x30)));
    let sized = || opened().next(SdReply::Size { len: 44, last_error: 122 });
    let queried = || sized().next(SdReply::User(Ok(())));
    let named = || queried().next(SdReply::Sid(Ok(wide("S-1-1-0"))));

    assert_eq!(failure(build_creator_only_sd().next(SdReply::Token(Err(5)))), (None, Some(5)));
    assert_eq!(
        failure(opened().next(SdReply::Size { len: 0, last_error: 6 })),
        (Some(0x30), Some(6))
    );
    assert_eq!(failure(sized().next(SdReply::User(Err(7)))), (Some(0x30), Some(7)));
    assert_eq!(failure(queried().next(SdReply::Sid(Err(8)))), (Some(0x30), Some(8)));
    assert_eq!(failure(named().next(SdReply::Descriptor(Err(9)))), (Some(0x30), Some(9)));
    assert!(matches!(opened().next(SdReply::User(Ok(()))), BuildSd::QuerySize { token: 0x30 }));
}
