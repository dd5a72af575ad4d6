//! Which npm registry an installation of OpenClaw goes through.
use crate::text;
use crate::text::{contains, same_text, to_ascii_lowercase, trim, trim_end_slashes};
use vstd::prelude::*;
use vstd::string::*;

verus! {

/// The registry that npm uses unless told otherwise.
pub const DEFAULT_NPM_REGISTRY: &'static str = "https://registry.npmjs.org";

/// The mirror that one installation goes through in place of the default.
pub const TEMPORARY_CHINA_NPM_REGISTRY: &'static str = "https://registry.npmmirror.com";

/// A registry's address in the form in which addresses are compared: without
/// white space around it, without slashes at its end, in lower case.
pub open spec fn normalized(address: Seq<char>) -> Seq<char> {
    text::lowered(text::without_trailing_slashes(text::trimmed(address)))
}

/// Whether a normalized address is that of npm's default registry, or none.
pub open spec fn default_registry(address: Seq<char>) -> bool {
    ||| address.len() == 0
    ||| address == DEFAULT_NPM_REGISTRY@
    ||| address == "http://registry.npmjs.org"@
}

/// Whether a normalized address is that of a known mirror in mainland China.
pub open spec fn domestic_registry(address: Seq<char>) -> bool {
    ||| text::has_part(address, "registry.npmmirror.com"@)
    ||| text::has_part(address, "registry.npm.taobao.org"@)
    ||| text::has_part(address, "registry.cnpmjs.org"@)
}

/// The normalized address of the registry in use; empty where it is unknown.
pub open spec fn current_address(registry: Option<&str>) -> Seq<char> {
    match registry {
        Some(r) => normalized(r@),
        None => Seq::empty(),
    }
}

/// Brings a registry's address into the form in which addresses are compared.
pub fn normalize_registry(value: &str) -> (address: String)
    ensures
        address@ == normalized(value@),
{
    to_ascii_lowercase(trim_end_slashes(trim(value).as_str()).as_str())
}

/// Whether a normalized address is that of npm's default registry, or none.
pub fn is_default_npm_registry(registry: &str) -> (is_default: bool)
    ensures
        is_default == default_registry(registry@),
{
    registry.is_empty() || same_text(registry, DEFAULT_NPM_REGISTRY) || same_text(
        registry,
        "http://registry.npmjs.org",
    )
}

/// Whether a normalized address is that of a known mirror in mainland China.
pub fn is_known_domestic_npm_registry(registry: &str) -> (known: bool)
    ensures
        known == domestic_registry(registry@),
{
    contains(registry, "registry.npmmirror.com") || contains(registry, "registry.npm.taobao.org")
        || contains(registry, "registry.cnpmjs.org")
}

/// The registry to use for one installation in place of the configured one.
/// The mirror stands in for npm's default; any other registry is kept.
pub fn resolve_openclaw_install_registry(current_registry: Option<&str>) -> (replacement: Option<
    &'static str,
>)
    ensures
        replacement is Some <==> default_registry(current_address(current_registry)),
        replacement matches Some(r) ==> r@ == TEMPORARY_CHINA_NPM_REGISTRY@,
{
    let address = match current_registry {
        Some(registry) => normalize_registry(registry),
        None => String::new(),
    };
    if is_default_npm_registry(address.as_str()) {
        return Some(TEMPORARY_CHINA_NPM_REGISTRY);
    }
    if is_known_domestic_npm_registry(address.as_str()) {
        return None;
    }
    None
}

/// A registry's address means the same whatever the case of its letters.
pub proof fn law_registry_ignores_case(address: Seq<char>)
    ensures
        normalized(text::lowered(address)) == normalized(address),
{
    text::lemma_trimmed_lowered(address);
    text::lemma_without_slashes_lowered(text::trimmed(address));
    text::lemma_lowered_twice(text::without_trailing_slashes(text::trimmed(address)));
}

/// White space around a registry's address means nothing.
pub proof fn law_registry_ignores_surrounding_space(
    before: Seq<char>,
    address: Seq<char>,
    after: Seq<char>,
)
    requires
        text::blank(before),
        text::blank(after),
    ensures
        normalized(before + address + after) == normalized(address),
{
    text::lemma_trimmed_between_blanks(before, address, after);
}

/// A slash at the end of a registry's address means nothing. Behind white space
/// that follows an address it is another matter: then that white space is no
/// longer at the end.
pub proof fn law_registry_ignores_trailing_slash(address: Seq<char>)
    requires
        text::blank(address) || !text::white_space(address.last()),
    ensures
        normalized(address.push('/')) == normalized(address),
{
    let slashed = address.push('/');
    let nothing = Seq::<char>::empty();
    if text::blank(address) {
        assert(slashed =~= address + seq!['/'] + nothing);
        text::lemma_trimmed_between_blanks(address, seq!['/'], nothing);
        text::lemma_trimmed_stable(seq!['/']);
        text::lemma_trimmed_shape(address);
        assert(seq!['/'].drop_last() =~= nothing);
        assert(text::without_trailing_slashes(seq!['/']) == text::without_trailing_slashes(nothing));
        assert(text::trimmed(address) =~= nothing);
    } else {
        text::lemma_trimmed_with_slash(address);
        let t = text::trimmed(address);
        assert(t.push('/').drop_last() =~= t);
    }
}

/// Normalizing a registry's address once more changes nothing. Only where the
/// trailing slashes stood behind white space is there something left to trim.
pub proof fn law_normalized_registry_is_stable(address: Seq<char>)
    requires
        normalized(address).len() > 0 ==> !text::white_space(normalized(address).last()),
    ensures
        normalized(normalized(address)) == normalized(address),
{
    let t = text::trimmed(address);
    let w = text::without_trailing_slashes(t);
    text::lemma_trimmed_shape(address);
    text::lemma_without_slashes_shape(t);
    text::lemma_lowered_shape(w);
    text::lemma_trimmed_stable(text::lowered(w));
    text::lemma_lowered_twice(w);
}

/// A registry that is known as a mirror in mainland China is kept: it is never
/// taken for npm's default.
pub proof fn law_domestic_registry_is_kept(address: Seq<char>)
    requires
        domestic_registry(address),
    ensures
        !default_registry(address),
{
    reveal_strlit("registry.npmmirror.com");
    reveal_strlit("registry.npm.taobao.org");
    reveal_strlit("registry.cnpmjs.org");
    reveal_strlit("https://registry.npmjs.org");
    reveal_strlit("http://registry.npmjs.org");
    if text::has_part(address, "registry.npmmirror.com"@) {
        text::lemma_part_char(address, "registry.npmmirror.com"@, 19);
        assert(address.contains('c'));
    } else if text::has_part(address, "registry.npm.taobao.org"@) {
        text::lemma_part_char(address, "registry.npm.taobao.org"@, 14);
        assert(address.contains('a'));
    } else {
        text::lemma_part_char(address, "registry.cnpmjs.org"@, 9);
        assert(address.contains('c'));
    }
}

/// The addresses that count as npm's default are its two, with and without
/// encryption, and none at all; the mirror is this one.
pub proof fn law_default_registry_by_address(address: Seq<char>)
    ensures
        default_registry(address) <==> address.len() == 0 || address == "https://registry.npmjs.org"@
            || address == "http://registry.npmjs.org"@,
        DEFAULT_NPM_REGISTRY@ == "https://registry.npmjs.org"@,
        TEMPORARY_CHINA_NPM_REGISTRY@ == "https://registry.npmmirror.com"@,
{
}

/// Normalizing takes away white space around an address and slashes at its end,
/// puts A to Z in lower case, and keeps every other character in its place.
pub proof fn law_normalizing_keeps_the_address(
    before: Seq<char>,
    core: Seq<char>,
    slashes: Seq<char>,
    after: Seq<char>,
)
    requires
        forall|i: int| 0 <= i < before.len() ==> text::white_space(#[trigger] before[i]),
        forall|i: int| 0 <= i < slashes.len() ==> #[trigger] slashes[i] == '/',
        forall|i: int| 0 <= i < after.len() ==> text::white_space(#[trigger] after[i]),
        core.len() > 0 ==> !text::white_space(core[0]) && core[core.len() - 1] != '/',
        core.len() > 0 && slashes.len() == 0 ==> !text::white_space(core[core.len() - 1]),
    ensures
        ({
            let address = normalized(before + (core + slashes) + after);
            &&& address.len() == core.len()
            &&& forall|i: int|
                0 <= i < core.len() ==> if 'A' <= core[i] <= 'Z' {
                    #[trigger] address[i] as u32 == core[i] as u32 + 32
                } else {
                    address[i] == core[i]
                }
        }),
{
    let kept = core + slashes;
    if kept.len() > 0 {
        if core.len() > 0 {
            assert(kept[0] == core[0]);
        } else {
            assert(kept[0] == slashes[0]);
        }
        if slashes.len() > 0 {
            assert(kept[kept.len() - 1] == slashes[slashes.len() - 1]);
        } else {
            assert(kept[kept.len() - 1] == core[core.len() - 1]);
        }
    }
    text::law_trim_leaves_what_stands_between(before, kept, after);
    text::law_only_trailing_slashes_are_dropped(core, slashes);
    let address = normalized(before + kept + after);
    assert(address == text::lowered(core));
    assert forall|i: int| 0 <= i < core.len() implies (if 'A' <= core[i] <= 'Z' {
        #[trigger] address[i] as u32 == core[i] as u32 + 32
    } else {
        address[i] == core[i]
    }) by {
        text::law_lower_case_by_code(core, i);
    }
}

/// The address that a registry is judged by is its normalized one, and empty
/// where no registry is known.
pub proof fn law_unknown_registry_has_no_address(address: &str)
    ensures
        current_address(None).len() == 0,
        current_address(Some(address)) == normalized(address@),
{
}

/// The mirror stands in where no registry is known, where the one that is named
/// is blank, and where it is npm's default; and nowhere else. Nothing but the
/// mirror ever stands in.
pub proof fn law_mirror_stands_in_for_default(
    address: &str,
    known: Option<&'static str>,
    unknown: Option<&'static str>,
)
    requires
        call_ensures(resolve_openclaw_install_registry, (Some(address),), known),
        call_ensures(resolve_openclaw_install_registry, (None,), unknown),
    ensures
        unknown is Some,
        unknown->0@ == "https://registry.npmmirror.com"@,
        known is Some ==> known->0@ == "https://registry.npmmirror.com"@,
        known is Some <==> {
            let wanted = normalized(address@);
            ||| wanted.len() == 0
            ||| wanted == "https://registry.npmjs.org"@
            ||| wanted == "http://registry.npmjs.org"@
        },
        (forall|i: int| 0 <= i < address@.len() ==> text::white_space(#[trigger] address@[i]))
            ==> known is Some,
{
    law_default_registry_by_address(normalized(address@));
    if forall|i: int| 0 <= i < address@.len() ==> text::white_space(#[trigger] address@[i]) {
        let nothing = Seq::<char>::empty();
        assert(address@ =~= address@ + (nothing + nothing) + nothing);
        law_normalizing_keeps_the_address(address@, nothing, nothing, nothing);
    }
}

/// The known mirrors are these three hosts: an address is one of theirs exactly
/// if the host's name stands in it somewhere.
pub proof fn law_domestic_registry_by_host(
    before: Seq<char>,
    host: Seq<char>,
    after: Seq<char>,
    address: Seq<char>,
)
    ensures
        host == "registry.npmmirror.com"@ || host == "registry.npm.taobao.org"@ || host
            == "registry.cnpmjs.org"@ ==> domestic_registry(before + host + after),
        domestic_registry(address) ==> exists|b: Seq<char>, h: Seq<char>, a: Seq<char>|
            address == #[trigger] (b + h + a) && (h == "registry.npmmirror.com"@ || h
                == "registry.npm.taobao.org"@ || h == "registry.cnpmjs.org"@),
{
    text::law_part_has_surroundings(before + host + after, host);
    text::law_part_has_surroundings(address, "registry.npmmirror.com"@);
    text::law_part_has_surroundings(address, "registry.npm.taobao.org"@);
    text::law_part_has_surroundings(address, "registry.cnpmjs.org"@);
}

/// An address is brought into its normal form, and judged by it: it is npm's
/// default exactly if it is one of the two addresses of that or empty, and that
/// of a known mirror exactly if the name of one of the three hosts stands in it.
pub proof fn law_registries_are_told_apart(
    registry: &str,
    address: String,
    is_default: bool,
    known: bool,
)
    requires
        call_ensures(normalize_registry, (registry,), address),
        call_ensures(is_default_npm_registry, (registry,), is_default),
        call_ensures(is_known_domestic_npm_registry, (registry,), known),
    ensures
        address@ == normalized(registry@),
        is_default <==> registry@.len() == 0 || registry@ == "https://registry.npmjs.org"@
            || registry@ == "http://registry.npmjs.org"@,
        known <==> exists|b: Seq<char>, h: Seq<char>, a: Seq<char>|
            registry@ == #[trigger] (b + h + a) && (h == "registry.npmmirror.com"@ || h
                == "registry.npm.taobao.org"@ || h == "registry.cnpmjs.org"@),
{
    law_default_registry_by_address(registry@);
    law_domestic_registry_by_host(registry@, registry@, registry@, registry@);
    if exists|b: Seq<char>, h: Seq<char>, a: Seq<char>|
        registry@ == #[trigger] (b + h + a) && (h == "registry.npmmirror.com"@ || h
            == "registry.npm.taobao.org"@ || h == "registry.cnpmjs.org"@) {
        let (b, h, a) = choose|b: Seq<char>, h: Seq<char>, a: Seq<char>|
            registry@ == #[trigger] (b + h + a) && (h == "registry.npmmirror.com"@ || h
                == "registry.npm.taobao.org"@ || h == "registry.cnpmjs.org"@);
        law_domestic_registry_by_host(b, h, a, registry@);
    }
}

} // verus!
