//! Names and security of named kernel objects.
//!
//! Names are unguessable, and an object that exists already is refused rather
//! than opened. Access is granted to the creating user and nobody else.

use crate::error::{fails, Error, ErrorKind, ErrorView};
use crate::sys;
use crate::text::{
    fixed_digits_spell_their_number, hex_fixed, lemma_hex_byte_is_injective, push_hex_fixed, spelled,
    spellings,
};
use crate::utf16;
use vstd::prelude::*;

verus! {

/// How many random bytes a name carries.
pub const NAME_BYTES: usize = 16;

/// Bytes as two hexadecimal digits each.
pub open spec fn hex_bytes(bytes: Seq<u8>) -> Seq<char>
    decreases bytes.len(),
{
    if bytes.len() == 0 {
        seq![]
    } else {
        hex_bytes(bytes.drop_last()) + hex_fixed(bytes.last() as nat, 2)
    }
}

/// An object name: the session's namespace, the prefix, and the random bytes.
pub open spec fn name_of(prefix: Seq<char>, bytes: Seq<u8>) -> Seq<char> {
    "Local\\"@ + prefix + hex_bytes(bytes)
}

/// The object name with `prefix` and these random bytes.
pub fn unique_name(prefix: &str, bytes: [u8; NAME_BYTES]) -> (r: String)
    ensures
        r@ == name_of(prefix@, bytes@),
{
    let mut name: String = "Local\\".to_owned();
    name.append(prefix);
    let mut i: usize = 0;
    while i < NAME_BYTES
        invariant
            i <= NAME_BYTES,
            name@ == "Local\\"@ + prefix@ + hex_bytes(bytes@.take(i as int)),
        decreases NAME_BYTES - i,
    {
        assert(bytes@.take(i + 1).drop_last() =~= bytes@.take(i as int));
        push_hex_fixed(&mut name, bytes[i] as u32, 2);
        assert(name@ =~= "Local\\"@ + prefix@ + hex_bytes(bytes@.take(i + 1)));
        i = i + 1;
    }
    assert(bytes@.take(i as int) =~= bytes@);
    name
}

proof fn lemma_hex_bytes_len(bytes: Seq<u8>)
    ensures
        hex_bytes(bytes).len() == 2 * bytes.len(),
    decreases bytes.len(),
{
    if bytes.len() > 0 {
        lemma_hex_bytes_len(bytes.drop_last());
        reveal_with_fuel(hex_fixed, 3);
    }
}

proof fn lemma_hex_bytes_is_injective(a: Seq<u8>, b: Seq<u8>)
    requires
        hex_bytes(a) == hex_bytes(b),
    ensures
        a == b,
    decreases a.len(),
{
    lemma_hex_bytes_len(a);
    lemma_hex_bytes_len(b);
    if a.len() > 0 {
        let (x, y) = (hex_bytes(a), hex_bytes(b));
        let (p, q) = (hex_bytes(a.drop_last()), hex_bytes(b.drop_last()));
        lemma_hex_bytes_len(a.drop_last());
        lemma_hex_bytes_len(b.drop_last());
        let n = p.len() as int;
        assert(x.take(n) =~= p);
        assert(y.take(n) =~= q);
        assert(x.skip(n) =~= hex_fixed(a.last() as nat, 2));
        assert(y.skip(n) =~= hex_fixed(b.last() as nat, 2));
        lemma_hex_bytes_is_injective(a.drop_last(), b.drop_last());
        lemma_hex_byte_is_injective(a.last(), b.last());
        assert(a =~= a.drop_last().push(a.last()));
        assert(b =~= b.drop_last().push(b.last()));
    } else {
        assert(a =~= b);
    }
}

/// Names with the same prefix are as distinct as the bytes in them: no two
/// draws of random bytes share a name.
pub proof fn names_are_as_distinct_as_their_bytes(prefix: Seq<char>, a: Seq<u8>, b: Seq<u8>)
    requires
        a != b,
    ensures
        name_of(prefix, a) != name_of(prefix, b),
{
    if name_of(prefix, a) == name_of(prefix, b) {
        let n = ("Local\\"@ + prefix).len() as int;
        assert(name_of(prefix, a).skip(n) =~= hex_bytes(a));
        assert(name_of(prefix, b).skip(n) =~= hex_bytes(b));
        lemma_hex_bytes_is_injective(a, b);
    }
}

/// A name is the namespace, the prefix and two digits for each random byte.
pub proof fn a_name_is_as_long_as_its_parts(prefix: Seq<char>, bytes: Seq<u8>)
    ensures
        name_of(prefix, bytes).len() == 6 + prefix.len() + 2 * bytes.len(),
{
    reveal_strlit("Local\\");
    lemma_hex_bytes_len(bytes);
}

/// `name` as a wide string that ends in a null, refusing a name that holds
/// one, which would cut it short.
pub fn to_wide_name(name: &str) -> (r: Result<Vec<u16>, Error>)
    ensures
        name@.contains('\0') ==> fails(r, ErrorView::Simple(ErrorKind::InvalidInput)),
        !name@.contains('\0') ==> (r matches Ok(wide) && wide@ == utf16::encoded(name@).push(0)),
{
    for c in it: name.chars()
        invariant
            it.seq() == name@,
            forall|i: int| 0 <= i < it.index() ==> name@[i] != '\0',
    {
        if c == '\0' {
            assert(name@[it.index() as int] == '\0');
            return Err(Error::Simple(ErrorKind::InvalidInput));
        }
    }
    let mut wide: Vec<u16> = utf16::encode(name);
    wide.push(0);
    Ok(wide)
}

/// A wide name holds no null but the one that ends it, so that nothing cuts it
/// short, and it reads back as the name.
pub proof fn a_wide_name_is_not_cut_short(name: Seq<char>)
    requires
        !name.contains('\0'),
    ensures
        forall|i: int|
            0 <= i < utf16::encoded(name).len() ==> #[trigger] utf16::encoded(name)[i] != 0,
        utf16::decoded(utf16::encoded(name)) == name,
    decreases name.len(),
{
    utf16::decoding_undoes_encoding(name);
    if name.len() > 0 {
        let (front, last) = (name.drop_last(), name.last());
        assert forall|i: int| 0 <= i < front.len() implies front[i] != '\0' by {
            assert(name.contains(name[i]));
        }
        assert(name.contains(name[name.len() - 1]));
        a_wide_name_is_not_cut_short(front);
        vstd::utf8::char_is_scalar(last);
        vstd::utf8::char_u32_cast(last, last as u32);
        assert forall|i: int| 0 <= i < utf16::encoded(name).len() implies #[trigger] utf16::encoded(
            name,
        )[i] != 0 by {
            if i < utf16::encoded(front).len() {
                assert(utf16::encoded(front)[i] != 0);
            }
        }
    }
}

/// The object that a create call returned, refusing one that existed already:
/// that is reported as success, with a last error that says so. A refused
/// object is to be closed.
pub fn reject_preexisting(handle: usize, last_error: u32) -> (r: Result<usize, Error>)
    ensures
        last_error == sys::error_already_exists_value() ==> fails(
            r,
            ErrorView::Custom(
                ErrorKind::AlreadyExists,
                "an object with this name already exists (possible name squatting)"@,
            ),
        ),
        last_error != sys::error_already_exists_value() ==> r == Ok::<usize, Error>(handle),
{
    if last_error == sys::error_already_exists() {
        return Err(
            Error::new(
                ErrorKind::AlreadyExists,
                "an object with this name already exists (possible name squatting)",
            ),
        );
    }
    Ok(handle)
}

/// The security attributes for creating a named object.
#[derive(Debug, Clone, Copy, PartialEq, Eq, Structural)]
pub struct SecurityAttributes {
    /// The security descriptor.
    pub descriptor: usize,
    /// Whether child processes inherit the handle.
    pub inherit: bool,
}

/// Attributes that grant access to the current user and nobody else, over the
/// descriptor that says so, or the failure to get it.
pub fn creator_only_attributes(descriptor: Result<usize, Error>) -> (r: Result<
    SecurityAttributes,
    Error,
>)
    ensures
        match descriptor {
            Ok(descriptor) => r == Ok::<SecurityAttributes, Error>(
                SecurityAttributes { descriptor, inherit: false },
            ),
            Err(e) => r == Err::<SecurityAttributes, Error>(e),
        },
{
    match descriptor {
        Ok(descriptor) => Ok(SecurityAttributes { descriptor, inherit: false }),
        Err(e) => Err(e),
    }
}

/// Where getting the process's descriptor stands. It is built once and kept.
#[derive(Debug)]
pub enum Descriptor {
    /// Build one.
    Build,
    /// Keep this one, unless another is kept already.
    Publish(usize),
    /// Use `descriptor`, and free `surplus` if there is one.
    Use {
        /// The descriptor.
        descriptor: usize,
        /// The one that was built for nothing.
        surplus: Option<usize>,
    },
    /// There is none.
    Failed(Error),
}

/// How getting the descriptor begins, given what is kept: zero for nothing.
pub open spec fn begins_with(kept: usize) -> Descriptor {
    if kept != 0 {
        Descriptor::Use { descriptor: kept, surplus: None }
    } else {
        Descriptor::Build
    }
}

/// What is used once `built` was to be kept, and `kept` was found: zero for
/// nothing.
pub open spec fn ends_with(built: usize, kept: usize) -> Descriptor {
    if kept == 0 {
        Descriptor::Use { descriptor: built, surplus: None }
    } else {
        Descriptor::Use { descriptor: kept, surplus: Some(built) }
    }
}

/// How getting the descriptor begins, given what is kept: zero for nothing.
pub fn creator_only_sd(kept: usize) -> (r: Descriptor)
    ensures
        r == begins_with(kept),
{
    if kept != 0 {
        Descriptor::Use { descriptor: kept, surplus: None }
    } else {
        Descriptor::Build
    }
}

impl Descriptor {
    /// The descriptor was built, or not.
    pub fn built(self, result: Result<usize, Error>) -> (r: Descriptor)
        ensures
            r == match (self, result) {
                (Descriptor::Build, Ok(descriptor)) => Descriptor::Publish(descriptor),
                (Descriptor::Build, Err(e)) => Descriptor::Failed(e),
                (step, _) => step,
            },
    {
        match (self, result) {
            (Descriptor::Build, Ok(descriptor)) => Descriptor::Publish(descriptor),
            (Descriptor::Build, Err(e)) => Descriptor::Failed(e),
            (step, _) => step,
        }
    }

    /// The exchange of nothing for the descriptor found `kept`: zero if the
    /// descriptor is kept now, or the one that another thread kept first.
    pub fn published(self, kept: usize) -> (r: Descriptor)
        ensures
            r == match self {
                Descriptor::Publish(built) => ends_with(built, kept),
                step => step,
            },
    {
        match self {
            Descriptor::Publish(descriptor) => if kept == 0 {
                Descriptor::Use { descriptor, surplus: None }
            } else {
                Descriptor::Use { descriptor: kept, surplus: Some(descriptor) }
            },
            step => step,
        }
    }
}

/// Every call uses the same descriptor. The first one to be kept is used by the
/// call that built it, by every call that built another one meanwhile, which
/// is then surplus, and by every call that begins later.
pub proof fn one_descriptor_is_used(first: usize, other: usize)
    requires
        first != 0,
    ensures
        ends_with(first, 0) == (Descriptor::Use { descriptor: first, surplus: None }),
        ends_with(other, first) == (Descriptor::Use { descriptor: first, surplus: Some(other) }),
        begins_with(first) == (Descriptor::Use { descriptor: first, surplus: None }),
{
}

/// The words of a descriptor whose protected list grants everything to the user
/// `sid` and nothing to anyone else.
pub open spec fn creator_only_sddl(sid: Seq<char>) -> Seq<char> {
    "D:P(A;;GA;;;"@ + sid + ")"@
}

/// Where building the descriptor stands.
#[derive(Debug)]
pub enum BuildSd {
    /// Call `OpenProcessToken` on this process, to query the token.
    OpenToken,
    /// Ask `GetTokenInformation` how long the token's user is.
    QuerySize {
        /// The token.
        token: usize,
    },
    /// Ask `GetTokenInformation` for the token's user.
    Query {
        /// The token.
        token: usize,
        /// How long it is, in bytes.
        len: u32,
    },
    /// Call `ConvertSidToStringSidW` on the user, copy the string that it
    /// writes up to its null, and free that.
    ConvertSid {
        /// The token.
        token: usize,
    },
    /// Call `ConvertStringSecurityDescriptorToSecurityDescriptorW`.
    ConvertDescriptor {
        /// The token.
        token: usize,
        /// The descriptor in words, as a wide string that ends in a null.
        sddl: Vec<u16>,
    },
    /// It is over, with this result. A token is to be closed.
    Done {
        /// The token, if it was opened.
        token: Option<usize>,
        /// The descriptor.
        result: Result<usize, Error>,
    },
}

/// What the system said to a [`BuildSd`].
#[derive(Debug)]
pub enum SdReply {
    /// The token, or the last error.
    Token(Result<usize, i32>),
    /// The length, zero for failure, and the last error.
    Size {
        /// The length, in bytes.
        len: u32,
        /// The last error.
        last_error: i32,
    },
    /// Whether the user was written, or the last error.
    User(Result<(), i32>),
    /// The user's string, or the last error.
    Sid(Result<Vec<u16>, i32>),
    /// The descriptor, or the last error.
    Descriptor(Result<usize, i32>),
}

/// Whether building is over, with the failure of a call.
pub open spec fn build_failed(r: BuildSd, token: Option<usize>, code: i32) -> bool {
    r matches BuildSd::Done { token: t, result } && t == token && fails(result, ErrorView::Os(code))
}

/// What follows on a reply. A reply to another step changes nothing.
pub open spec fn build_follows(step: BuildSd, reply: SdReply, r: BuildSd) -> bool {
    match (step, reply) {
        (BuildSd::OpenToken, SdReply::Token(Ok(token))) => r == (BuildSd::QuerySize { token }),
        (BuildSd::OpenToken, SdReply::Token(Err(code))) => build_failed(r, None, code),
        (BuildSd::QuerySize { token }, SdReply::Size { len, last_error }) => if len == 0 {
            build_failed(r, Some(token), last_error)
        } else {
            r == (BuildSd::Query { token, len })
        },
        (BuildSd::Query { token, .. }, SdReply::User(Ok(_))) => r == (BuildSd::ConvertSid {
            token,
        }),
        (BuildSd::Query { token, .. }, SdReply::User(Err(code))) => build_failed(
            r,
            Some(token),
            code,
        ),
        (BuildSd::ConvertSid { token }, SdReply::Sid(Ok(units))) => {
            &&& r matches BuildSd::ConvertDescriptor { token: t, sddl }
            &&& t == token
            &&& sddl@ == utf16::encoded(creator_only_sddl(utf16::decoded(units@))).push(0)
        },
        (BuildSd::ConvertSid { token }, SdReply::Sid(Err(code))) => build_failed(
            r,
            Some(token),
            code,
        ),
        (BuildSd::ConvertDescriptor { token, .. }, SdReply::Descriptor(Ok(descriptor))) => r == (
        BuildSd::Done { token: Some(token), result: Ok::<usize, Error>(descriptor) }),
        (
            BuildSd::ConvertDescriptor { token, .. },
            SdReply::Descriptor(Err(code)),
        ) => build_failed(r, Some(token), code),
        _ => r == step,
    }
}

/// Begin to build a descriptor whose protected list grants everything to the
/// current user and nothing to anyone else.
pub fn build_creator_only_sd() -> (r: BuildSd)
    ensures
        r == BuildSd::OpenToken,
{
    BuildSd::OpenToken
}

impl BuildSd {
    /// Take what the system said to the step that `self` is.
    pub fn next(self, reply: SdReply) -> (r: BuildSd)
        ensures
            build_follows(self, reply, r),
    {
        match (self, reply) {
            (BuildSd::OpenToken, SdReply::Token(Ok(token))) => BuildSd::QuerySize { token },
            (BuildSd::OpenToken, SdReply::Token(Err(code))) => BuildSd::Done {
                token: None,
                result: Err(Error::Os(code)),
            },
            (BuildSd::QuerySize { token }, SdReply::Size { len, last_error }) => {
                if len == 0 {
                    BuildSd::Done { token: Some(token), result: Err(Error::Os(last_error)) }
                } else {
                    BuildSd::Query { token, len }
                }
            },
            (BuildSd::Query { token, .. }, SdReply::User(Ok(()))) => BuildSd::ConvertSid { token },
            (BuildSd::Query { token, .. }, SdReply::User(Err(code))) => BuildSd::Done {
                token: Some(token),
                result: Err(Error::Os(code)),
            },
            (BuildSd::ConvertSid { token }, SdReply::Sid(Ok(units))) => {
                let sid: String = utf16::decode(units.as_slice());
                let mut text: String = "D:P(A;;GA;;;".to_owned();
                text.append(sid.as_str());
                text.append(")");
                let mut sddl: Vec<u16> = utf16::encode(text.as_str());
                sddl.push(0);
                BuildSd::ConvertDescriptor { token, sddl }
            },
            (BuildSd::ConvertSid { token }, SdReply::Sid(Err(code))) => BuildSd::Done {
                token: Some(token),
                result: Err(Error::Os(code)),
            },
            (
                BuildSd::ConvertDescriptor { token, .. },
                SdReply::Descriptor(Ok(descriptor)),
            ) => BuildSd::Done { token: Some(token), result: Ok(descriptor) },
            (BuildSd::ConvertDescriptor { token, .. }, SdReply::Descriptor(Err(code))) => {
                BuildSd::Done { token: Some(token), result: Err(Error::Os(code)) }
            },
            (step, _) => step,
        }
    }
}

/// The token that a step holds open.
pub open spec fn token_of(step: BuildSd) -> Option<usize> {
    match step {
        BuildSd::OpenToken => None,
        BuildSd::QuerySize { token } => Some(token),
        BuildSd::Query { token, .. } => Some(token),
        BuildSd::ConvertSid { token } => Some(token),
        BuildSd::ConvertDescriptor { token, .. } => Some(token),
        BuildSd::Done { token, .. } => token,
    }
}

/// A token that was opened is never lost: every later step still names it,
/// down to the last, which says to close it.
pub proof fn an_opened_token_is_closed_at_the_end(step: BuildSd, reply: SdReply, r: BuildSd)
    requires
        build_follows(step, reply, r),
        token_of(step) is Some,
    ensures
        token_of(r) == token_of(step),
{
}

/// The descriptor that is converted is exactly the one for the user that the
/// token named, whatever the user's string is.
pub proof fn the_descriptor_grants_the_user_alone(
    token: usize,
    units: Vec<u16>,
    sid: Seq<char>,
    r: BuildSd,
)
    requires
        units@ == utf16::encoded(sid),
        build_follows(BuildSd::ConvertSid { token }, SdReply::Sid(Ok::<Vec<u16>, i32>(units)), r),
    ensures
        r matches BuildSd::ConvertDescriptor { sddl, .. } && sddl@ == utf16::encoded(
            creator_only_sddl(sid),
        ).push(0),
{
    utf16::decoding_undoes_encoding(sid);
}

/// A name is the session's namespace, then the prefix, then two digits for each
/// byte, in their order, that spell the byte.
pub proof fn a_name_spells_its_bytes(prefix: &str, bytes: [u8; NAME_BYTES], r: String)
    requires
        call_ensures(unique_name, (prefix, bytes), r),
    ensures
        r@.len() == 6 + prefix@.len() + 32,
        r@.take(6) == "Local\\"@,
        r@.subrange(6, 6int + prefix@.len()) == prefix@,
        forall|i: int|
            0 <= i < 16 ==> spelled(
                r@.subrange(6 + prefix@.len() + 2 * i, 6 + prefix@.len() + 2 * i + 2),
            ) == #[trigger] bytes@[i],
{
    reveal_strlit("Local\\");
    lemma_hex_bytes_len(bytes@);
    let start = 6 + prefix@.len();
    assert(r@.take(6) =~= "Local\\"@);
    assert(r@.subrange(6, start as int) =~= prefix@);
    assert forall|i: int| 0 <= i < 16 implies spelled(
        r@.subrange(start + 2 * i, start + 2 * i + 2),
    ) == #[trigger] bytes@[i] by {
        lemma_each_byte_is_spelled(bytes@, i);
        assert(r@.subrange(start + 2 * i, start + 2 * i + 2) =~= hex_bytes(bytes@).subrange(
            2 * i,
            2 * i + 2,
        ));
    }
}

proof fn lemma_each_byte_is_spelled(bytes: Seq<u8>, i: int)
    requires
        0 <= i < bytes.len(),
    ensures
        hex_bytes(bytes).len() == 2 * bytes.len(),
        spelled(hex_bytes(bytes).subrange(2 * i, 2 * i + 2)) == bytes[i],
    decreases bytes.len(),
{
    lemma_hex_bytes_len(bytes);
    let (front, last) = (bytes.drop_last(), hex_fixed(bytes.last() as nat, 2));
    lemma_hex_bytes_len(front);
    fixed_digits_spell_their_number(bytes.last() as nat, 2);
    reveal_with_fuel(spellings, 3);
    if i == bytes.len() - 1 {
        assert(hex_bytes(bytes).subrange(2 * i, 2 * i + 2) =~= last);
    } else {
        lemma_each_byte_is_spelled(front, i);
        assert(hex_bytes(bytes).subrange(2 * i, 2 * i + 2) =~= hex_bytes(front).subrange(
            2 * i,
            2 * i + 2,
        ));
    }
}

/// A wide name ends in its only null and reads back as the name; a name that
/// holds a null itself is refused.
pub proof fn a_wide_name_reads_back(name: &str, r: Result<Vec<u16>, Error>)
    requires
        call_ensures(to_wide_name, (name,), r),
    ensures
        r is Ok <==> !name@.contains('\0'),
        r matches Err(e) ==> e@ == ErrorView::Simple(ErrorKind::InvalidInput),
        r matches Ok(wide) ==> {
            &&& wide@.len() > 0
            &&& wide@[wide@.len() - 1] == 0
            &&& forall|i: int| 0 <= i < wide@.len() - 1 ==> #[trigger] wide@[i] != 0
            &&& utf16::decoded(wide@.take(wide@.len() - 1)) == name@
        },
{
    if let Ok(wide) = r {
        a_wide_name_is_not_cut_short(name@);
        let units = utf16::encoded(name@);
        assert(wide@.take(wide@.len() - 1) =~= units);
        assert forall|i: int| 0 <= i < wide@.len() - 1 implies #[trigger] wide@[i] != 0 by {
            assert(wide@[i] == units[i]);
        }
    }
}

/// An object that existed already is refused, and any other is passed on.
pub proof fn an_object_that_existed_is_refused(
    handle: usize,
    last_error: u32,
    r: Result<usize, Error>,
)
    requires
        call_ensures(reject_preexisting, (handle, last_error), r),
    ensures
        match r {
            Ok(passed) => last_error != 183 && passed == handle,
            Err(e) => last_error == 183 && e@ == ErrorView::Custom(
                ErrorKind::AlreadyExists,
                "an object with this name already exists (possible name squatting)"@,
            ),
        },
{
}

/// Attributes are made over the descriptor that was got, and are not inherited;
/// the failure to get one is passed on.
pub proof fn attributes_are_not_inherited(
    descriptor: Result<usize, Error>,
    r: Result<SecurityAttributes, Error>,
)
    requires
        call_ensures(creator_only_attributes, (descriptor,), r),
    ensures
        descriptor matches Ok(sd) ==> (r matches Ok(attributes) && attributes.descriptor == sd
            && !attributes.inherit),
        descriptor matches Err(e) ==> r == Err::<SecurityAttributes, Error>(e),
{
}

/// A descriptor that is kept is used; without one, one is built, and is kept
/// unless another was kept meanwhile, which is then used in its place.
pub proof fn the_descriptor_that_is_kept_is_used(
    kept: usize,
    begun: Descriptor,
    step: Descriptor,
    result: Result<usize, Error>,
    after_build: Descriptor,
    after_publish: Descriptor,
)
    requires
        call_ensures(creator_only_sd, (kept,), begun),
        call_ensures(Descriptor::built, (step, result), after_build),
        call_ensures(Descriptor::published, (step, kept), after_publish),
    ensures
        kept == 0 ==> begun == Descriptor::Build,
        kept != 0 ==> (begun matches Descriptor::Use { descriptor, surplus } && descriptor == kept
            && surplus is None),
        step is Build ==> match result {
            Ok(descriptor) => after_build == Descriptor::Publish(descriptor),
            Err(e) => after_build == Descriptor::Failed(e),
        },
        step !is Build ==> after_build == step,
        step matches Descriptor::Publish(mine) ==> {
            &&& after_publish matches Descriptor::Use { descriptor, surplus }
            &&& kept == 0 ==> descriptor == mine && surplus is None
            &&& kept != 0 ==> descriptor == kept && surplus == Some(mine)
        },
        step !is Publish ==> after_publish == step,
{
}

/// How the descriptor is built, call by call. Each step keeps the token, a call
/// that failed ends it with the code that it left, and the descriptor that is
/// converted is the words for the user that was named, ended by a null.
pub proof fn a_descriptor_is_built_call_by_call(
    first: BuildSd,
    step: BuildSd,
    reply: SdReply,
    r: BuildSd,
)
    requires
        call_ensures(build_creator_only_sd, (), first),
        call_ensures(BuildSd::next, (step, reply), r),
    ensures
        first == BuildSd::OpenToken,
        step is OpenToken ==> (reply matches SdReply::Token(opened) ==> match opened {
            Ok(opened) => r matches BuildSd::QuerySize { token } && token == opened,
            Err(code) => r matches BuildSd::Done { token, result } && token is None && (
            result matches Err(e) && e@ == ErrorView::Os(code)),
        }),
        step matches BuildSd::QuerySize { token: open } ==> (reply matches SdReply::Size {
            len,
            last_error,
        } ==> if len == 0 {
            r matches BuildSd::Done { token, result } && token == Some(open) && (
            result matches Err(e) && e@ == ErrorView::Os(last_error))
        } else {
            r matches BuildSd::Query { token, len: asked } && token == open && asked == len
        }),
        step matches BuildSd::Query { token: open, .. } ==> (reply matches SdReply::User(written)
            ==> match written {
            Ok(_) => r matches BuildSd::ConvertSid { token } && token == open,
            Err(code) => r matches BuildSd::Done { token, result } && token == Some(open) && (
            result matches Err(e) && e@ == ErrorView::Os(code)),
        }),
        step matches BuildSd::ConvertSid { token: open } ==> (reply matches SdReply::Sid(sid)
            ==> match sid {
            Ok(units) => r matches BuildSd::ConvertDescriptor { token, sddl } && token == open
                && sddl@ == utf16::encoded(
                "D:P(A;;GA;;;"@ + utf16::decoded(units@) + ")"@,
            ).push(0),
            Err(code) => r matches BuildSd::Done { token, result } && token == Some(open) && (
            result matches Err(e) && e@ == ErrorView::Os(code)),
        }),
        step matches BuildSd::ConvertDescriptor { token: open, .. } ==> (
        reply matches SdReply::Descriptor(made) ==> {
            &&& r matches BuildSd::Done { token, result }
            &&& token == Some(open)
            &&& match made {
                Ok(descriptor) => result == Ok::<usize, Error>(descriptor),
                Err(code) => result matches Err(e) && e@ == ErrorView::Os(code),
            }
        }),
        step is Done ==> r == step,
        match (step, reply) {
            (BuildSd::OpenToken, SdReply::Token(_)) => true,
            (BuildSd::QuerySize { .. }, SdReply::Size { .. }) => true,
            (BuildSd::Query { .. }, SdReply::User(_)) => true,
            (BuildSd::ConvertSid { .. }, SdReply::Sid(_)) => true,
            (BuildSd::ConvertDescriptor { .. }, SdReply::Descriptor(_)) => true,
            _ => r == step,
        },
{
}

} // verus!
