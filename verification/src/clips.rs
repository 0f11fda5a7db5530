//! The clips of a batch: which files they are, in what order, and when they were shot.
use crate::errors::{PipelineError, PipelineFault};
use crate::order;
use crate::paths;
use crate::paths::UnixPath;
use crate::sorting;
use crate::text;
use vstd::prelude::*;
use vstd::string::*;
use vstd::utf8::*;

verus! {

/// An ASCII letter in lower case; any other byte as it is.
pub open spec fn ascii_lower(byte: u8) -> u8 {
    if 0x41 <= byte <= 0x5a {
        (byte + 0x20) as u8
    } else {
        byte
    }
}

/// Whether a path has the extension `mp4`, in upper or lower case.
pub open spec fn is_clip(path: Seq<u8>) -> bool {
    paths::extension(path) matches Some(ext) && ext.map_values(|b: u8| ascii_lower(b))
        == seq![0x6du8, 0x70, 0x34]
}

/// The clips among the entries of a directory.
pub open spec fn clips_of(entries: Seq<Seq<u8>>) -> Seq<Seq<u8>> {
    entries.filter(|path: Seq<u8>| is_clip(path))
}

/// What a dated file name begins with.
pub open spec fn clip_prefix() -> Seq<char> {
    seq!['D', 'J', 'I', '_']
}

/// The capture date in a file name `DJI_YYYYMMDD...`: the eight digits behind the prefix.
pub open spec fn name_date(name: Seq<char>) -> Option<Seq<char>> {
    if name.len() >= 12 && name.take(4) == clip_prefix() && all_digits(name.subrange(4, 12)) {
        Some(name.subrange(4, 12))
    } else {
        None
    }
}

/// The capture date of a clip, or what its file name lacks.
pub open spec fn clip_date(path: Seq<u8>) -> Result<Seq<char>, PipelineFault> {
    match paths::file_name(path) {
        Some(name) => if !valid_utf8(name) {
            Err(PipelineFault::NonUtf8FileName { path })
        } else {
            match name_date(decode_utf8(name)) {
                Some(date) => Ok(date),
                None => Err(PipelineFault::UndatedFileName { name: decode_utf8(name) }),
            }
        },
        None => Err(PipelineFault::NonUtf8FileName { path }),
    }
}

/// What the search for the earliest date finds: the least of all dates; where some clip has
/// none, the fault of the first such clip; and a fault where there are no clips.
pub open spec fn is_earliest_date(
    inputs: Seq<Seq<u8>>,
    found: Result<Seq<char>, PipelineFault>,
) -> bool {
    if inputs.len() == 0 {
        found == Err::<Seq<char>, PipelineFault>(PipelineFault::NoInputFiles)
    } else {
        match found {
            Ok(date) => {
                &&& exists|i: int| 0 <= i < inputs.len() && #[trigger] clip_date(inputs[i]) == found
                &&& forall|i: int|
                    0 <= i < inputs.len() ==> (#[trigger] clip_date(inputs[i]) matches Ok(other)
                        && !order::text_less(other, date))
            },
            Err(fault) => exists|i: int|
                0 <= i < inputs.len() && #[trigger] clip_date(inputs[i]) == found && all_dated(
                    inputs.take(i),
                ),
        }
    }
}

/// Whether every clip has a date.
pub open spec fn all_dated(inputs: Seq<Seq<u8>>) -> bool {
    forall|i: int| 0 <= i < inputs.len() ==> #[trigger] clip_date(inputs[i]) is Ok
}

/// What a result says.
pub open spec fn date_view(found: Result<String, PipelineError>) -> Result<
    Seq<char>,
    PipelineFault,
> {
    match found {
        Ok(date) => Ok(date@),
        Err(error) => Err(error@),
    }
}

/// Whether a path has the extension `mp4`, in upper or lower case.
pub fn is_clip_path(path: &UnixPath) -> (clip: bool)
    ensures
        clip == is_clip(path@),
{
    match path.extension() {
        Some(ext) => {
            let ghost lower = ext@.map_values(|b: u8| ascii_lower(b));
            if ext.len() != 3 {
                assert(lower.len() != seq![0x6du8, 0x70, 0x34].len());
                return false;
            }
            let clip = (ext[0] == 0x6d || ext[0] == 0x4d) && (ext[1] == 0x70 || ext[1] == 0x50)
                && ext[2] == 0x34;
            proof {
                if clip {
                    assert(lower =~= seq![0x6du8, 0x70, 0x34]);
                } else if lower == seq![0x6du8, 0x70, 0x34] {
                    assert(lower[0] == 0x6d && lower[1] == 0x70 && lower[2] == 0x34);
                }
            }
            clip
        },
        None => false,
    }
}

/// The clips among the entries of a directory, sorted.
pub fn collect_inputs(entries: Vec<UnixPath>) -> (inputs: Vec<UnixPath>)
    ensures
        sorting::is_stable_sort(
            clips_of(paths::path_bytes(entries@)),
            paths::path_bytes(inputs@),
        ),
{
    let ghost all = paths::path_bytes(entries@);
    let ghost pred = |path: Seq<u8>| is_clip(path);
    let mut clips: Vec<UnixPath> = Vec::new();
    let mut i: usize = 0;
    proof {
        assert(all.take(0) =~= Seq::<Seq<u8>>::empty());
        reveal(Seq::filter);
        assert(paths::path_bytes(clips@) =~= all.take(0).filter(pred));
    }
    while i < entries.len()
        invariant
            i <= entries@.len(),
            all == paths::path_bytes(entries@),
            pred == (|path: Seq<u8>| is_clip(path)),
            paths::path_bytes(clips@) == all.take(i as int).filter(pred),
        decreases entries@.len() - i,
    {
        let ghost before = paths::path_bytes(clips@);
        if is_clip_path(&entries[i]) {
            clips.push(entries[i].duplicate());
            assert(paths::path_bytes(clips@) =~= before.push(all[i as int]));
        }
        proof {
            reveal(Seq::filter);
            assert(all.take(i + 1).drop_last() =~= all.take(i as int));
            assert(all.take(i + 1).last() == all[i as int]);
        }
        i = i + 1;
    }
    assert(all.take(all.len() as int) =~= all);
    sorting::sort_paths(clips)
}

/// The capture date in a file name.
pub fn date_in_name(name: &str) -> (date: Option<String>)
    ensures
        match date {
            Some(d) => name_date(name@) == Some(d@),
            None => name_date(name@) is None,
        },
{
    let chars = text::characters(name);
    if chars.len() < 12 {
        return None;
    }
    if chars[0] != 'D' || chars[1] != 'J' || chars[2] != 'I' || chars[3] != '_' {
        proof {
            let head = name@.take(4);
            assert(head[0] == chars@[0] && head[1] == chars@[1] && head[2] == chars@[2] && head[3]
                == chars@[3]);
        }
        return None;
    }
    assert(name@.take(4) =~= clip_prefix());
    let ghost digits = name@.subrange(4, 12);
    let mut date = String::new();
    let mut i: usize = 4;
    while i < 12
        invariant
            4 <= i <= 12,
            chars@ == name@,
            name@.len() >= 12,
            digits == name@.subrange(4, 12),
            date@ == name@.subrange(4, i as int),
            all_digits(date@),
        decreases 12 - i,
    {
        if chars[i] < '0' || chars[i] > '9' {
            assert(digits[i - 4] == chars@[i as int]);
            return None;
        }
        date.push(chars[i]);
        assert(date@ =~= name@.subrange(4, i + 1));
        i = i + 1;
    }
    Some(date)
}

/// The capture date of a clip, or what its file name lacks.
pub fn date_of_clip(path: &UnixPath) -> (found: Result<String, PipelineError>)
    ensures
        date_view(found) == clip_date(path@),
{
    let name = match path.file_name() {
        Some(name) => name,
        None => {
            return Err(PipelineError::NonUtf8FileName { path: path.duplicate() });
        },
    };
    match text::decode_strict(name.as_slice()) {
        Some(name) => match date_in_name(name) {
            Some(date) => Ok(date),
            None => Err(PipelineError::UndatedFileName { name: name.to_owned() }),
        },
        None => Err(PipelineError::NonUtf8FileName { path: path.duplicate() }),
    }
}

/// Earliest capture date (YYYYMMDD) across all inputs, parsed from DJI's
/// `DJI_YYYYMMDDHHMMSS_....mp4` naming convention. A file that does not match is an error, since
/// it would still be concatenated into the output.
pub fn earliest_date(inputs: &[UnixPath]) -> (found: Result<String, PipelineError>)
    ensures
        is_earliest_date(paths::path_bytes(inputs@), date_view(found)),
{
    let ghost all = paths::path_bytes(inputs@);
    if inputs.len() == 0 {
        return Err(PipelineError::NoInputFiles);
    }
    let mut best = match date_of_clip(&inputs[0]) {
        Ok(date) => date,
        Err(error) => {
            assert(all_dated(all.take(0)));
            assert(clip_date(all[0]) == Err::<Seq<char>, PipelineFault>(error@));
            return Err(error);
        },
    };
    assert(clip_date(all[0]) == Ok::<Seq<char>, PipelineFault>(best@));
    proof {
        order::bytes_less_irreflexive(encode_utf8(best@));
    }
    let mut i: usize = 1;
    while i < inputs.len()
        invariant
            1 <= i <= inputs@.len(),
            all == paths::path_bytes(inputs@),
            exists|k: int|
                0 <= k < i && #[trigger] clip_date(all[k]) == Ok::<Seq<char>, PipelineFault>(best@),
            forall|k: int|
                0 <= k < i ==> (#[trigger] clip_date(all[k]) matches Ok(other)
                    && !order::text_less(other, best@)),
        decreases inputs@.len() - i,
    {
        match date_of_clip(&inputs[i]) {
            Ok(date) => {
                assert(clip_date(all[i as int]) == Ok::<Seq<char>, PipelineFault>(date@));
                if order::bytes_before(date.as_str().as_bytes(), best.as_str().as_bytes()) {
                    proof {
                        order::bytes_less_irreflexive(encode_utf8(date@));
                        assert forall|k: int| 0 <= k < i + 1 implies (#[trigger] clip_date(
                            all[k],
                        ) matches Ok(other) && !order::text_less(other, date@)) by {
                            if k < i {
                                let other = clip_date(all[k])->Ok_0;
                                if order::text_less(other, date@) {
                                    order::bytes_less_transitive(
                                        encode_utf8(other),
                                        encode_utf8(date@),
                                        encode_utf8(best@),
                                    );
                                }
                            }
                        }
                    }
                    best = date;
                }
            },
            Err(error) => {
                proof {
                    assert forall|k: int| 0 <= k < all.take(i as int).len() implies #[trigger] clip_date(
                        all.take(i as int)[k],
                    ) is Ok by {
                        assert(all.take(i as int)[k] == all[k]);
                    }
                    assert(clip_date(all[i as int]) == Err::<Seq<char>, PipelineFault>(error@));
                }
                return Err(error);
            },
        }
        i = i + 1;
    }
    Ok(best)
}

/// The clips of a directory are exactly the entries with the extension `mp4`.
pub proof fn inputs_are_the_clips(entries: Seq<Seq<u8>>, inputs: Seq<Seq<u8>>, path: Seq<u8>)
    requires
        sorting::is_stable_sort(clips_of(entries), inputs),
    ensures
        inputs.contains(path) <==> entries.contains(path) && is_clip(path),
{
    let pred = |p: Seq<u8>| is_clip(p);
    let clips = clips_of(entries);
    sorting::sort_keeps_paths(clips, inputs, path);
    if clips.contains(path) {
        let i = choose|i: int| 0 <= i < clips.len() && clips[i] == path;
        entries.lemma_filter_pred(pred, i);
        entries.lemma_filter_contains_rev(pred, path);
    }
    if entries.contains(path) && is_clip(path) {
        let i = choose|i: int| 0 <= i < entries.len() && entries[i] == path;
        entries.lemma_filter_contains(pred, i);
    }
}

/// A name made of the prefix, eight digits and anything else holds those digits as its date.
pub proof fn name_gives_back_its_date(date: Seq<char>, tail: Seq<char>)
    requires
        date.len() == 8,
        all_digits(date),
    ensures
        name_date(clip_prefix() + date + tail) == Some(date),
{
    let name = clip_prefix() + date + tail;
    assert(name.take(4) =~= clip_prefix());
    assert(name.subrange(4, 12) =~= date);
}

/// The date of a clip is eight digits.
pub proof fn dates_are_eight_digits(path: Seq<u8>)
    ensures
        clip_date(path) matches Ok(date) ==> date.len() == 8 && all_digits(date),
{
}

/// The earliest date of a batch is eight digits.
pub proof fn earliest_dates_are_eight_digits(
    inputs: Seq<Seq<u8>>,
    found: Result<Seq<char>, PipelineFault>,
)
    requires
        is_earliest_date(inputs, found),
    ensures
        found matches Ok(date) ==> date.len() == 8 && all_digits(date),
{
    if found is Ok {
        let i = choose|i: int| 0 <= i < inputs.len() && #[trigger] clip_date(inputs[i]) == found;
        dates_are_eight_digits(inputs[i]);
    }
}

/// Two findings on the same clips are the same, in whatever order the clips are given.
pub proof fn earliest_date_ignores_order(
    a: Seq<Seq<u8>>,
    b: Seq<Seq<u8>>,
    first: Seq<char>,
    second: Result<Seq<char>, PipelineFault>,
)
    requires
        forall|path: Seq<u8>| a.contains(path) <==> b.contains(path),
        is_earliest_date(a, Ok(first)),
        is_earliest_date(b, second),
    ensures
        second == Ok::<Seq<char>, PipelineFault>(first),
{
    let i = choose|i: int|
        0 <= i < a.len() && #[trigger] clip_date(a[i]) == Ok::<Seq<char>, PipelineFault>(first);
    assert(a.contains(a[i]));
    assert(b.contains(a[i]));
    let k = choose|k: int| 0 <= k < b.len() && b[k] == a[i];
    match second {
        Ok(date) => {
            let j = choose|j: int| 0 <= j < b.len() && #[trigger] clip_date(b[j]) == second;
            assert(b.contains(b[j]));
            assert(a.contains(b[j]));
            let m = choose|m: int| 0 <= m < a.len() && a[m] == b[j];
            assert(clip_date(a[m]) == second);
            assert(clip_date(b[k]) == Ok::<Seq<char>, PipelineFault>(first));
            order::bytes_less_total(encode_utf8(first), encode_utf8(date));
            text::encode_injective(first, date);
        },
        Err(fault) => {
            let j = choose|j: int|
                0 <= j < b.len() && #[trigger] clip_date(b[j]) == second && all_dated(b.take(j));
            assert(b.contains(b[j]));
            assert(a.contains(b[j]));
            let m = choose|m: int| 0 <= m < a.len() && a[m] == b[j];
            assert(clip_date(a[m]) == second);
        },
    }
}

/// The number that a text of decimal digits spells.
pub open spec fn digits_value(digits: Seq<char>) -> int
    decreases digits.len(),
{
    if digits.len() == 0 {
        0
    } else {
        10 * digits_value(digits.drop_last()) + (digits.last() as int - '0' as int)
    }
}

/// Whether a text holds decimal digits alone.
pub open spec fn all_digits(text: Seq<char>) -> bool {
    forall|i: int| 0 <= i < text.len() ==> '0' <= #[trigger] text[i] <= '9'
}

/// Among dates of equally many digits, the one that comes first as a text is the smaller number:
/// the earlier day.
pub proof fn date_order_is_numeric(a: Seq<char>, b: Seq<char>)
    requires
        all_digits(a),
        all_digits(b),
        a.len() == b.len(),
    ensures
        order::text_less(a, b) <==> digits_value(a) < digits_value(b),
    decreases a.len(),
{
    let (x, y) = (encode_utf8(a), encode_utf8(b));
    is_ascii_chars_encode_utf8(a);
    is_ascii_chars_encode_utf8(b);
    if a.len() > 0 {
        let (a1, b1) = (a.drop_last(), b.drop_last());
        let (x1, y1) = (encode_utf8(a1), encode_utf8(b1));
        is_ascii_chars_encode_utf8(a1);
        is_ascii_chars_encode_utf8(b1);
        assert forall|i: int| 0 <= i < x1.len() implies x1[i] == x[i] by {
            assert(a1[i] == a[i]);
        }
        assert forall|i: int| 0 <= i < y1.len() implies y1[i] == y[i] by {
            assert(b1[i] == b[i]);
        }
        assert(x =~= x1.push(a.last() as u8)) by {
            assert(x[a.len() - 1] == a[a.len() - 1] as u8);
        }
        assert(y =~= y1.push(b.last() as u8)) by {
            assert(y[b.len() - 1] == b[b.len() - 1] as u8);
        }
        date_order_is_numeric(a1, b1);
        date_order_is_numeric(b1, a1);
        order::bytes_less_push(x1, y1, a.last() as u8, b.last() as u8);
        order::bytes_less_total(x1, y1);
        order::bytes_less_irreflexive(x1);
        if x1 == y1 {
            text::encode_injective(a1, b1);
        }
        assert('0' <= a[a.len() - 1] <= '9');
        assert('0' <= b[b.len() - 1] <= '9');
    }
}

/// The search for the earliest date has one finding.
pub proof fn earliest_date_is_unique(
    inputs: Seq<Seq<u8>>,
    a: Result<Seq<char>, PipelineFault>,
    b: Result<Seq<char>, PipelineFault>,
)
    requires
        is_earliest_date(inputs, a),
        is_earliest_date(inputs, b),
    ensures
        a == b,
{
    match (a, b) {
        (Ok(date), _) => {
            earliest_date_ignores_order(inputs, inputs, date, b);
        },
        (_, Ok(date)) => {
            earliest_date_ignores_order(inputs, inputs, date, a);
        },
        (Err(x), Err(y)) => {
            if inputs.len() > 0 {
                let i = choose|i: int|
                    0 <= i < inputs.len() && #[trigger] clip_date(inputs[i]) == a && all_dated(
                        inputs.take(i),
                    );
                let j = choose|j: int|
                    0 <= j < inputs.len() && #[trigger] clip_date(inputs[j]) == b && all_dated(
                        inputs.take(j),
                    );
                if i < j {
                    assert(clip_date(inputs.take(j)[i]) is Ok);
                } else if j < i {
                    assert(clip_date(inputs.take(i)[j]) is Ok);
                }
            }
        },
    }
}

/// The path of a clip in a directory: the prefix, the digits of the time at which it was shot,
/// and the rest of its name.
pub open spec fn clip_path(dir: Seq<u8>, time: Seq<char>, rest: Seq<char>) -> Seq<u8> {
    paths::join(dir, encode_utf8(clip_prefix() + time + rest))
}

proof fn clip_names_are_plain(time: Seq<char>, rest: Seq<char>)
    requires
        all_digits(time),
        !rest.contains('/'),
    ensures
        paths::is_plain_name(encode_utf8(clip_prefix() + time + rest)),
{
    let name = clip_prefix() + time + rest;
    assert(!name.contains('/')) by {
        if name.contains('/') {
            let k = choose|k: int| 0 <= k < name.len() && name[k] == '/';
            if 4 <= k < 4 + time.len() {
                assert(time[k - 4] == '/');
            } else if k >= 4 + time.len() {
                assert(rest[k - 4 - time.len()] == '/');
            }
        }
    }
    text::encode_slash(name);
    text::encode_no_shorter(name);
}

/// The sorted clips of a directory stand in the order in which they were shot.
pub proof fn clips_are_in_order_of_capture(
    inputs: Seq<Seq<u8>>,
    i: int,
    j: int,
    dir: Seq<u8>,
    time_i: Seq<char>,
    rest_i: Seq<char>,
    time_j: Seq<char>,
    rest_j: Seq<char>,
)
    requires
        sorting::in_path_order(inputs),
        0 <= i < inputs.len(),
        0 <= j < inputs.len(),
        inputs[i] == clip_path(dir, time_i, rest_i),
        inputs[j] == clip_path(dir, time_j, rest_j),
        all_digits(time_i),
        all_digits(time_j),
        time_i.len() == time_j.len(),
        !rest_i.contains('/'),
        !rest_j.contains('/'),
        digits_value(time_i) < digits_value(time_j),
    ensures
        i < j,
{
    let (name_i, name_j) = (
        clip_prefix() + time_i + rest_i,
        clip_prefix() + time_j + rest_j,
    );
    clip_names_are_plain(time_i, rest_i);
    clip_names_are_plain(time_j, rest_j);
    date_order_is_numeric(time_i, time_j);
    is_ascii_chars_encode_utf8(time_i);
    is_ascii_chars_encode_utf8(time_j);
    order::bytes_less_extend(
        encode_utf8(time_i),
        encode_utf8(time_j),
        encode_utf8(rest_i),
        encode_utf8(rest_j),
    );
    assert(name_i =~= clip_prefix() + (time_i + rest_i));
    assert(name_j =~= clip_prefix() + (time_j + rest_j));
    text::encode_concat(time_i, rest_i);
    text::encode_concat(time_j, rest_j);
    text::encode_concat(clip_prefix(), time_i + rest_i);
    text::encode_concat(clip_prefix(), time_j + rest_j);
    order::bytes_less_common(
        encode_utf8(clip_prefix()),
        encode_utf8(time_i + rest_i),
        encode_utf8(time_j + rest_j),
    );
    paths::siblings_are_ordered_by_name(dir, encode_utf8(name_i), encode_utf8(name_j));
    if i == j {
        paths::parts_less_irreflexive(paths::components(inputs[i]));
    }
}

/// A path is a clip exactly where its file name ends in a dot and the letters `mp4`, each letter
/// in either case, with something before the dot.
pub proof fn clips_end_in_mp4(path: Seq<u8>)
    ensures
        is_clip(path) <==> (paths::file_name(path) matches Some(name) && {
            let n = name.len() as int;
            &&& n > 4
            &&& name[n - 4] == 0x2e
            &&& name[n - 3] == 0x6d || name[n - 3] == 0x4d
            &&& name[n - 2] == 0x70 || name[n - 2] == 0x50
            &&& name[n - 1] == 0x34
        }),
{
    if let Some(name) = paths::file_name(path) {
        let n = name.len() as int;
        paths::last_dots_are_followed_by_none(name, n - 4);
        let mp4 = seq![0x6du8, 0x70, 0x34];
        if is_clip(path) {
            let ext = paths::extension(path)->0;
            let lower = ext.map_values(|b: u8| ascii_lower(b));
            assert(lower.len() == 3);
            assert(lower[0] == mp4[0] && lower[1] == mp4[1] && lower[2] == mp4[2]);
            assert(paths::last_dot(name) == n - 4);
            assert(ext[0] == name[n - 3] && ext[1] == name[n - 2] && ext[2] == name[n - 1]);
        } else if n > 4 && name[n - 4] == 0x2e && (name[n - 3] == 0x6d || name[n - 3] == 0x4d) && (
        name[n - 2] == 0x70 || name[n - 2] == 0x50) && name[n - 1] == 0x34 {
            let ext = name.skip(n - 3);
            assert(ext[0] == name[n - 3] && ext[1] == name[n - 2] && ext[2] == name[n - 1]);
            assert(!ext.contains(0x2e));
            assert(paths::extension(path) == Some(ext));
            assert(ext.map_values(|b: u8| ascii_lower(b)) =~= mp4);
        }
    }
}

/// In whatever directory it lies, a file is a clip exactly by what follows the last dot of its
/// name: three bytes that spell `mp4` in either case.
pub proof fn extensions_make_clips(dir: Seq<u8>, stem: Seq<u8>, ext: Seq<u8>)
    requires
        stem.len() > 0,
        !stem.contains(0x2f),
        !ext.contains(0x2f),
        !ext.contains(0x2e),
    ensures
        is_clip(paths::join(dir, stem + seq![0x2eu8] + ext)) <==> {
            &&& ext.len() == 3
            &&& ext[0] == 0x6d || ext[0] == 0x4d
            &&& ext[1] == 0x70 || ext[1] == 0x50
            &&& ext[2] == 0x34
        },
{
    let name = stem + seq![0x2eu8] + ext;
    let path = paths::join(dir, name);
    let (n, k) = (name.len() as int, stem.len() as int);
    assert(name[k] == 0x2e);
    assert(!name.contains(0x2f)) by {
        if name.contains(0x2f) {
            let i = choose|i: int| 0 <= i < name.len() && name[i] == 0x2f;
            if i < k {
                assert(stem[i] == 0x2f);
            } else if i > k {
                assert(ext[i - k - 1] == 0x2f);
            }
        }
    }
    assert(name.contains(name[0]));
    clips_end_in_mp4(path);
    if name == seq![0x2eu8, 0x2e] {
        assert(ext.len() == 0) by {
            if ext.len() > 0 {
                assert(name.len() >= 3);
            }
        }
        if dir.len() == 0 {
            assert(path =~= name);
            paths::file_names_are_last_pieces(dir, name);
        } else if dir.last() == 0x2f {
            assert(path =~= dir.drop_last().push(0x2f) + name);
            paths::file_names_are_last_pieces(dir.drop_last(), name);
        } else {
            paths::file_names_are_last_pieces(dir, name);
        }
        assert(paths::file_name(path) is None);
    } else {
        assert(name != seq![0x2eu8]) by {
            assert(name.len() >= 2);
        }
        paths::join_appends_component(dir, name);
        assert forall|i: int| 0 <= i < ext.len() implies name[k + 1 + i] == ext[i] && ext[i] != 0x2e by {
            assert(ext.contains(ext[i]));
        }
        if is_clip(path) {
            if n - 4 > k {
                assert(name[k + 1 + (n - 4 - k - 1)] == ext[n - 4 - k - 1]);
            }
            if n - 4 < k {
                let d = k - (n - 4);
                assert(name[n - 4 + d] == 0x2e);
                assert(d == 1 || d == 2 || d == 3);
            }
        }
        if ext.len() == 3 {
            assert(name[k + 1 + 0] == ext[0]);
            assert(name[k + 1 + 1] == ext[1]);
            assert(name[k + 1 + 2] == ext[2]);
        }
    }
}

/// The clips of a directory are picked entry by entry, and keep their order.
pub proof fn clips_are_picked_one_by_one(a: Seq<Seq<u8>>, path: Seq<u8>, b: Seq<Seq<u8>>)
    ensures
        clips_of(a + b) == clips_of(a) + clips_of(b),
        clips_of(a.push(path)) == if is_clip(path) {
            clips_of(a).push(path)
        } else {
            clips_of(a)
        },
        clips_of(Seq::empty()) == Seq::<Seq<u8>>::empty(),
{
    let pred = |p: Seq<u8>| is_clip(p);
    Seq::filter_distributes_over_add(a, b, pred);
    reveal(Seq::filter);
    assert(a.push(path).drop_last() =~= a);
}

/// What is collected of a directory holds each of its clips as often as the directory does, and
/// nothing else.
pub proof fn collected_inputs_are_the_clips(
    entries: Seq<Seq<u8>>,
    inputs: Seq<Seq<u8>>,
    path: Seq<u8>,
)
    requires
        sorting::is_stable_sort(clips_of(entries), inputs),
    ensures
        inputs.to_multiset().count(path) == if is_clip(path) {
            entries.to_multiset().count(path)
        } else {
            0
        },
        forall|i: int, j: int|
            0 <= i < j < inputs.len() ==> !paths::path_less(#[trigger] inputs[j], #[trigger] inputs[i]),
{
    sorting::sorted_paths_are_the_same_in_order(clips_of(entries), inputs);
    clips_keep_count(entries, path);
}

proof fn clips_keep_count(entries: Seq<Seq<u8>>, path: Seq<u8>)
    ensures
        clips_of(entries).to_multiset().count(path) == if is_clip(path) {
            entries.to_multiset().count(path)
        } else {
            0
        },
    decreases entries.len(),
{
    let none = Seq::<Seq<u8>>::empty();
    if entries.len() == 0 {
        assert(entries =~= none);
        clips_are_picked_one_by_one(none, path, none);
        none.to_multiset_ensures();
        assert(!none.contains(path));
    } else {
        let (init, last) = (entries.drop_last(), entries.last());
        assert(entries =~= init.push(last));
        clips_keep_count(init, path);
        clips_are_picked_one_by_one(init, last, none);
        vstd::seq_lib::to_multiset_build(init, last);
        vstd::seq_lib::to_multiset_build(clips_of(init), last);
    }
}

/// The clips that are collected of a directory stand in the order in which they were shot.
pub proof fn collected_inputs_are_in_order_of_capture(
    entries: Seq<Seq<u8>>,
    inputs: Seq<Seq<u8>>,
    i: int,
    j: int,
    dir: Seq<u8>,
    time_i: Seq<char>,
    rest_i: Seq<char>,
    time_j: Seq<char>,
    rest_j: Seq<char>,
)
    requires
        sorting::is_stable_sort(clips_of(entries), inputs),
        0 <= i < inputs.len(),
        0 <= j < inputs.len(),
        inputs[i] == paths::join(dir, encode_utf8(seq!['D', 'J', 'I', '_'] + time_i + rest_i)),
        inputs[j] == paths::join(dir, encode_utf8(seq!['D', 'J', 'I', '_'] + time_j + rest_j)),
        forall|k: int| 0 <= k < time_i.len() ==> '0' <= #[trigger] time_i[k] <= '9',
        forall|k: int| 0 <= k < time_j.len() ==> '0' <= #[trigger] time_j[k] <= '9',
        time_i.len() == time_j.len(),
        !rest_i.contains('/'),
        !rest_j.contains('/'),
        digits_value(time_i) < digits_value(time_j),
    ensures
        i < j,
{
    clips_are_in_order_of_capture(inputs, i, j, dir, time_i, rest_i, time_j, rest_j);
}

/// A name has a date exactly where it begins with `DJI_` and eight digits, and the date is those
/// digits; what follows makes no difference.
pub proof fn dated_names_begin_with_their_date(name: Seq<char>, date: Seq<char>)
    ensures
        name_date(name) == Some(date) <==> {
            &&& date.len() == 8
            &&& forall|i: int| 0 <= i < date.len() ==> '0' <= #[trigger] date[i] <= '9'
            &&& exists|tail: Seq<char>| name == #[trigger] ("DJI_"@ + date + tail)
        },
{
    let prefix = "DJI_"@;
    reveal_strlit("DJI_");
    assert(prefix =~= clip_prefix());
    if name_date(name) == Some(date) {
        let tail = name.skip(12);
        assert(name =~= name.take(4) + name.subrange(4, 12) + tail);
        assert(name == prefix + date + tail);
    }
    if date.len() == 8 && (forall|i: int| 0 <= i < date.len() ==> '0' <= #[trigger] date[i] <= '9')
        && exists|tail: Seq<char>| name == #[trigger] (prefix + date + tail) {
        let tail = choose|tail: Seq<char>| name == #[trigger] (prefix + date + tail);
        name_gives_back_its_date(date, tail);
    }
}

/// A clip has a date exactly where its file name is a text that begins with `DJI_` and eight
/// digits; a name that is no text, or no name at all, is reported by the path, and any other by
/// the name.
pub proof fn clips_are_dated_by_their_names(path: Seq<u8>, name: Seq<char>, date: Seq<char>)
    ensures
        paths::file_name(path) is None ==> clip_date(path) == Err::<Seq<char>, PipelineFault>(
            PipelineFault::NonUtf8FileName { path },
        ),
        paths::file_name(path) matches Some(bytes) ==> (!valid_utf8(bytes) ==> clip_date(path)
            == Err::<Seq<char>, PipelineFault>(PipelineFault::NonUtf8FileName { path })),
        paths::file_name(path) == Some(encode_utf8(name)) ==> {
            let dated = date.len() == 8 && (forall|i: int|
                0 <= i < date.len() ==> '0' <= #[trigger] date[i] <= '9') && exists|
                tail: Seq<char>,
            |
                name == #[trigger] ("DJI_"@ + date + tail);
            &&& clip_date(path) == Ok::<Seq<char>, PipelineFault>(date) <==> dated
            &&& clip_date(path) is Err ==> clip_date(path) == Err::<Seq<char>, PipelineFault>(
                PipelineFault::UndatedFileName { name },
            )
        },
{
    encode_utf8_valid_utf8(name);
    encode_utf8_decode_utf8(name);
    dated_names_begin_with_their_date(name, date);
}

/// A batch has a date exactly where it has clips and each of them has one; then it is the date of
/// one of them, and as a number no greater than that of any.
pub proof fn earliest_dates_are_the_least(
    inputs: Seq<Seq<u8>>,
    found: Result<Seq<char>, PipelineFault>,
)
    requires
        is_earliest_date(inputs, found),
    ensures
        found is Ok <==> inputs.len() > 0 && forall|i: int|
            0 <= i < inputs.len() ==> clip_date(#[trigger] inputs[i]) is Ok,
        found matches Ok(date) ==> exists|i: int|
            0 <= i < inputs.len() && clip_date(#[trigger] inputs[i]) == Ok::<
                Seq<char>,
                PipelineFault,
            >(date),
        found matches Ok(date) ==> forall|i: int|
            0 <= i < inputs.len() ==> digits_value(date) <= digits_value(
                clip_date(#[trigger] inputs[i])->Ok_0,
            ),
        inputs.len() == 0 ==> found == Err::<Seq<char>, PipelineFault>(PipelineFault::NoInputFiles),
        inputs.len() > 0 && found is Err ==> exists|i: int|
            0 <= i < inputs.len() && clip_date(#[trigger] inputs[i]) == found && forall|k: int|
                0 <= k < i ==> clip_date(#[trigger] inputs[k]) is Ok,
{
    if inputs.len() > 0 {
        match found {
            Ok(date) => {
                earliest_dates_are_eight_digits(inputs, found);
                assert forall|i: int| 0 <= i < inputs.len() implies clip_date(
                    #[trigger] inputs[i],
                ) is Ok && digits_value(date) <= digits_value(clip_date(inputs[i])->Ok_0) by {
                    let other = clip_date(inputs[i])->Ok_0;
                    dates_are_eight_digits(inputs[i]);
                    date_order_is_numeric(other, date);
                }
                let i = choose|i: int|
                    0 <= i < inputs.len() && #[trigger] clip_date(inputs[i]) == found;
                assert(clip_date(inputs[i]) == found);
            },
            Err(fault) => {
                let i = choose|i: int|
                    0 <= i < inputs.len() && #[trigger] clip_date(inputs[i]) == found && all_dated(
                        inputs.take(i),
                    );
                assert forall|k: int| 0 <= k < i implies clip_date(#[trigger] inputs[k]) is Ok by {
                    assert(clip_date(inputs.take(i)[k]) is Ok);
                }
                assert(clip_date(inputs[i]) is Err);
            },
        }
    }
}

/// The number that digits spell is read from the left, each digit worth ten times those behind.
pub proof fn digits_are_read_in_tens(digits: Seq<char>, d: char)
    requires
        '0' <= d <= '9',
    ensures
        digits_value(Seq::empty()) == 0,
        digits_value(digits.push(d)) == 10 * digits_value(digits) + (d as int - '0' as int),
{
    assert(digits.push(d).drop_last() =~= digits);
}

/// The view of a date that was found holds what it is a view of.
pub proof fn date_views_are_faithful(found: Result<String, PipelineError>)
    ensures
        match found {
            Ok(date) => date_view(found) == Ok::<Seq<char>, PipelineFault>(date@),
            Err(error) => date_view(found) == Err::<Seq<char>, PipelineFault>(error@),
        },
{
}

} // verus!
