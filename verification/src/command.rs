//! Arguments of commands, as the operating system takes them.
use crate::paths::UnixPath;
use vstd::prelude::*;
use vstd::string::*;
use vstd::utf8::*;

verus! {

/// The byte strings of a list of arguments.
pub open spec fn arg_bytes(args: Seq<Vec<u8>>) -> Seq<Seq<u8>> {
    Seq::new(args.len(), |i: int| args[i]@)
}

/// The arguments that texts spell.
pub open spec fn words(texts: Seq<&'static str>) -> Seq<Seq<u8>> {
    Seq::new(texts.len(), |i: int| encode_utf8(texts[i]@))
}

/// Appends the arguments that texts spell.
pub(crate) fn push_words(args: &mut Vec<Vec<u8>>, texts: &[&'static str])
    ensures
        arg_bytes(final(args)@) == arg_bytes(old(args)@) + words(texts@),
{
    let ghost before = arg_bytes(args@);
    let mut i: usize = 0;
    assert(before + words(texts@).take(0) =~= before);
    while i < texts.len()
        invariant
            i <= texts@.len(),
            arg_bytes(args@) == before + words(texts@).take(i as int),
        decreases texts@.len() - i,
    {
        let ghost prior = args@;
        let word = texts[i].as_bytes_vec();
        args.push(word);
        assert(arg_bytes(args@) =~= arg_bytes(prior).push(word@));
        assert(arg_bytes(args@) =~= before + words(texts@).take(i + 1));
        i = i + 1;
    }
    assert(words(texts@).take(texts@.len() as int) =~= words(texts@));
}

/// Appends the argument that a text spells.
pub(crate) fn push_text(args: &mut Vec<Vec<u8>>, text: &str)
    ensures
        arg_bytes(final(args)@) == arg_bytes(old(args)@).push(encode_utf8(text@)),
{
    let ghost prior = args@;
    let word = text.as_bytes_vec();
    args.push(word);
    assert(arg_bytes(args@) =~= arg_bytes(prior).push(word@));
}

/// Appends a path as an argument.
pub(crate) fn push_path(args: &mut Vec<Vec<u8>>, path: &UnixPath)
    ensures
        arg_bytes(final(args)@) == arg_bytes(old(args)@).push(path@),
{
    let ghost prior = args@;
    let copy = path.duplicate();
    args.push(copy.bytes);
    assert(arg_bytes(args@) =~= arg_bytes(prior).push(path@));
}

/// Arguments are taken one by one, each with its own bytes.
pub proof fn arguments_keep_their_bytes(args: Seq<Vec<u8>>, texts: Seq<&'static str>, i: int)
    ensures
        arg_bytes(args).len() == args.len(),
        words(texts).len() == texts.len(),
        0 <= i < args.len() ==> arg_bytes(args)[i] == args[i]@,
        0 <= i < texts.len() ==> words(texts)[i] == encode_utf8(texts[i]@),
{
}

} // verus!
