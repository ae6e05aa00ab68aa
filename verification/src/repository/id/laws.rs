//! What holds of every identifier, stated over the grammar.

use vstd::prelude::*;

use super::base::{authorized, is_base, lemma_check_accepts};
use super::error::Error;
use super::name;
use super::name::source_name;
use super::path::{all_normal, components, is_absolute, is_normal, join, SEPARATOR};
use super::{parse, render, IdView};
use crate::text::{
    lemma_position_bounds, lemma_position_is, lemma_run_is, lemma_split_len, position, run,
};

verus! {

/// A sequence without separator is its own single component.
proof fn lemma_single_component(s: Seq<char>)
    requires
        forall|j: int| 0 <= j < s.len() ==> s[j] != SEPARATOR,
    ensures
        components(s) =~= seq![s],
{
    lemma_position_is(s, SEPARATOR, s.len() as int);
}

/// Two sequences without separator, written with one between them, are the
/// two components of the result.
proof fn lemma_two_components(head: Seq<char>, tail: Seq<char>)
    requires
        forall|j: int| 0 <= j < head.len() ==> head[j] != SEPARATOR,
        forall|j: int| 0 <= j < tail.len() ==> tail[j] != SEPARATOR,
    ensures
        components(head + seq![SEPARATOR] + tail) =~= seq![head, tail],
{
    let s = head + seq![SEPARATOR] + tail;
    lemma_position_is(s, SEPARATOR, head.len() as int);
    assert(s.subrange(0, head.len() as int) =~= head);
    assert(s.subrange(head.len() as int + 1, s.len() as int) =~= tail);
    lemma_single_component(tail);
}

/// A single component holds no separator and is the whole sequence.
proof fn lemma_one_part(s: Seq<char>)
    requires
        components(s).len() == 1,
    ensures
        components(s) =~= seq![s],
        forall|j: int| 0 <= j < s.len() ==> s[j] != SEPARATOR,
{
    lemma_position_bounds(s, SEPARATOR);
    let i = position(s, SEPARATOR);
    if i < s.len() {
        lemma_split_len(s.subrange(i + 1, s.len() as int), SEPARATOR);
    }
}

/// Two components are what stands before and after the one separator.
proof fn lemma_two_parts(s: Seq<char>)
    requires
        components(s).len() == 2,
    ensures
        s =~= components(s)[0] + seq![SEPARATOR] + components(s)[1],
        forall|j: int| 0 <= j < components(s)[0].len() ==> components(s)[0][j] != SEPARATOR,
        forall|j: int| 0 <= j < components(s)[1].len() ==> components(s)[1][j] != SEPARATOR,
{
    lemma_position_bounds(s, SEPARATOR);
    let i = position(s, SEPARATOR);
    let tail = s.subrange(i + 1, s.len() as int);
    lemma_one_part(tail);
}

/// The written name of a repository has no separator in it, is a normal
/// component, and reads back as the base it was written from.
proof fn lemma_name_round_trip(base: Seq<char>)
    requires
        is_base(base),
    ensures
        forall|j: int| 0 <= j < name::render(base).len() ==> name::render(base)[j] != SEPARATOR,
        is_normal(name::render(base)),
        name::parse(name::render(base)) == Ok::<Seq<char>, Error>(base),
{
    let s = name::render(base);
    assert(name::stem(s) =~= base);
    lemma_check_accepts(base);
}

/// What parses is valid: each segment of the result is what a
/// [`super::Base`] holds.
pub proof fn lemma_parse_wf(s: Seq<char>)
    requires
        parse(s) is Ok,
    ensures
        parse(s)->Ok_0.wf(),
{
    let parts = components(s.skip(run(s, SEPARATOR)));
    if parts.len() == 1 {
        lemma_check_accepts(name::stem(parts[0]));
    } else {
        lemma_check_accepts(parts[0]);
        lemma_check_accepts(name::stem(parts[1]));
    }
}

/// Parsing the canonical rendering of a valid identifier yields that
/// identifier.
pub proof fn lemma_parse_render(id: IdView)
    requires
        id.wf(),
    ensures
        parse(render(id)) == Ok::<IdView, Error>(id),
{
    let s = render(id);
    let written = name::render(id.repository);
    lemma_name_round_trip(id.repository);
    match id.namespace {
        Some(namespace) => {
            lemma_check_accepts(namespace);
            assert(s.skip(0) =~= s);
            lemma_two_components(namespace, written);
        },
        None => {
            lemma_run_is(s, SEPARATOR, 0);
            assert(s.skip(0) =~= s);
            lemma_single_component(s);
        },
    }
}

/// An accepted string is canonical but for the separators at its front: what
/// follows them is the rendering of the identifier that it parses to.
pub proof fn lemma_parse_canonical(s: Seq<char>)
    requires
        parse(s) is Ok,
    ensures
        s.skip(run(s, SEPARATOR)) == render(parse(s)->Ok_0),
{
    let body = s.skip(run(s, SEPARATOR));
    let parts = components(body);
    if parts.len() == 1 {
        lemma_one_part(body);
    } else {
        lemma_two_parts(body);
    }
}

/// Rendering is idempotent under parsing: a string that parses renders to a
/// string that parses to the same identifier, and so renders the same again.
pub proof fn lemma_round_trip(s: Seq<char>)
    requires
        parse(s) is Ok,
    ensures
        parse(render(parse(s)->Ok_0)) == parse(s),
        render(parse(render(parse(s)->Ok_0))->Ok_0) == render(parse(s)->Ok_0),
{
    lemma_parse_wf(s);
    lemma_parse_render(parse(s)->Ok_0);
}

/// A path with a component that is not normal (an empty one, `.` or `..`) is
/// refused as misformatted, wherever the component stands. The empty string
/// and a bare root are such paths: their one component is empty.
pub proof fn lemma_refuses_abnormal(s: Seq<char>, i: int)
    requires
        0 <= i < components(s.skip(run(s, SEPARATOR))).len(),
        !is_normal(components(s.skip(run(s, SEPARATOR)))[i]),
    ensures
        parse(s) == Err::<IdView, Error>(Error::MisformattedPath),
{
}

/// A path made of separators only, the empty string and the bare root among
/// them, is refused as misformatted.
pub proof fn lemma_refuses_root(s: Seq<char>)
    requires
        forall|i: int| 0 <= i < s.len() ==> s[i] == SEPARATOR,
    ensures
        parse(s) == Err::<IdView, Error>(Error::MisformattedPath),
{
    lemma_run_is(s, SEPARATOR, s.len() as int);
}

/// A path of more than two components is refused as misformatted.
pub proof fn lemma_refuses_depth(s: Seq<char>)
    requires
        components(s.skip(run(s, SEPARATOR))).len() > 2,
    ensures
        parse(s) == Err::<IdView, Error>(Error::MisformattedPath),
{
}

/// A string that starts with a character outside of the authorized set,
/// such as `~`, is refused.
pub proof fn lemma_refuses_foreign_start(s: Seq<char>)
    requires
        s.len() > 0,
        s[0] != SEPARATOR,
        !authorized(s[0]),
    ensures
        parse(s) is Err,
{
}

/// The storage path of a valid identifier stays within the storage: the
/// rendering is relative and made of normal components only, so it is
/// appended to the storage path and never climbs out of it.
pub proof fn lemma_path_within_storage(storage: Seq<char>, id: IdView)
    requires
        id.wf(),
    ensures
        !is_absolute(render(id)),
        all_normal(components(render(id))),
        storage.is_prefix_of(join(storage, render(id))),
        render(id).is_suffix_of(join(storage, render(id))),
{
    let rel = render(id);
    let written = name::render(id.repository);
    match id.namespace {
        Some(namespace) => {
            lemma_two_components(namespace, written);
        },
        None => {
            lemma_single_component(rel);
        },
    }
}

/// Every identifier is of exactly one type, and one that bears the reserved
/// name is never plain, with or without a namespace.
pub proof fn lemma_classification(id: IdView)
    ensures
        id.is_origin_source() || id.is_namespace_source() || id.is_plain(),
        !(id.is_origin_source() && id.is_namespace_source()),
        !(id.is_origin_source() && id.is_plain()),
        !(id.is_namespace_source() && id.is_plain()),
        id.repository == source_name() ==> !id.is_plain(),
{
}

} // verus!
