use vstd::prelude::*;
use crate::text::{
    chars_of, digits_value, has_prefix, is_digit, lemma_digits_nonneg, lower_ascii, parse_i32,
    parse_i32_spec,
    replace_char, replace_char_in, same_chars, starts_with, string_from_chars, to_lower_ascii,
    unsigned_part,
};

verus! {

/// A path in the archives' form made into a file system path: backslashes become slashes.
pub fn normalise_path_to_fs(path: &str) -> (p: String)
    ensures
        p@ == replace_char(path@, '\\', '/'),
{
    let v = replace_char_in(&chars_of(path), '\\', '/');
    string_from_chars(v.as_slice())
}

/// The part of `s` after its last `c` (all of `s` when there is none).
pub open spec fn after_last(s: Seq<char>, c: char) -> Seq<char>
    decreases s.len(),
{
    if s.len() == 0 {
        s
    } else if s.last() == c {
        Seq::empty()
    } else {
        after_last(s.drop_last(), c).push(s.last())
    }
}

/// The patch number of an archive name: the number after the last `-`, or 0 when that
/// part is not a number.
pub open spec fn patch_value(name: Seq<char>) -> i32 {
    match parse_i32_spec(after_last(name, '-')) {
        Some(v) => v,
        None => 0,
    }
}

fn after_last_dash(name: &Vec<char>) -> (r: Vec<char>)
    ensures
        r@ == after_last(name@, '-'),
{
    let n = name.len();
    let mut start: usize = n;
    assert(name@.take(n as int) =~= name@);
    assert(name@.skip(n as int) =~= Seq::<char>::empty());
    assert(after_last(name@, '-') + Seq::<char>::empty() =~= after_last(name@, '-'));
    while start > 0 && name[start - 1] != '-'
        invariant
            start <= n == name@.len(),
            after_last(name@, '-') == after_last(name@.take(start as int), '-') + name@.skip(
                start as int,
            ),
        decreases start,
    {
        let ghost t = name@.take(start as int);
        assert(t.drop_last() =~= name@.take(start - 1));
        assert(name@.skip(start - 1) =~= seq![t.last()] + name@.skip(start as int));
        assert(after_last(t, '-') == after_last(t.drop_last(), '-').push(t.last()));
        assert(after_last(t.drop_last(), '-').push(t.last()) + name@.skip(start as int) =~= after_last(
            t.drop_last(),
            '-',
        ) + name@.skip(start - 1));
        start = start - 1;
    }
    if start > 0 {
        let ghost t = name@.take(start as int);
        assert(t.last() == '-');
        assert(after_last(t, '-') == Seq::<char>::empty());
    } else {
        assert(name@.take(0) =~= Seq::<char>::empty());
    }
    let mut r: Vec<char> = Vec::new();
    let mut i = start;
    while i < n
        invariant
            start <= i <= n == name@.len(),
            r@ == name@.subrange(start as int, i as int),
        decreases n - i,
    {
        r.push(name[i]);
        i = i + 1;
        assert(r@ =~= name@.subrange(start as int, i as int));
    }
    assert(name@.skip(start as int) =~= name@.subrange(start as int, n as int));
    assert(after_last(name@, '-') =~= Seq::<char>::empty() + name@.skip(start as int));
    r
}

fn patch_number_of(name: &Vec<char>) -> (v: i32)
    ensures
        v == patch_value(name@),
{
    match parse_i32(&after_last_dash(name)) {
        Some(v) => v,
        None => 0,
    }
}

/// The patch number of an archive name: the number after the last `-`, or 0.
pub fn patch_number(name: &str) -> (v: i32)
    ensures
        v == patch_value(name@),
{
    patch_number_of(&chars_of(name))
}

/// The priority of an MPQ archive, from its file stem, the locale, and whether it lies in
/// the locale directory. Higher priorities are searched first: locale patches (1000 plus
/// the patch number), patches (800 plus the patch number), then the locale archives, the
/// expansion archives and the common ones.
pub open spec fn priority_of(stem: Seq<char>, locale: Seq<char>, is_locale_dir: bool) -> int {
    let n = lower_ascii(stem);
    let l = lower_ascii(locale);
    if is_locale_dir && starts_with(n, "patch-"@ + l) {
        1000 + patch_value(n)
    } else if !is_locale_dir && starts_with(n, "patch"@) {
        800 + patch_value(n)
    } else if is_locale_dir {
        if starts_with(n, "lichking-locale"@) {
            600
        } else if starts_with(n, "expansion-locale"@) {
            500
        } else if starts_with(n, "locale"@) {
            400
        } else if starts_with(n, "speech"@) {
            390
        } else {
            300
        }
    } else if n == "lichking"@ {
        200
    } else if n == "expansion"@ {
        150
    } else if n == "common-2"@ {
        100
    } else if n == "common"@ {
        50
    } else {
        25
    }
}

/// `patch-` followed by the (lower-case) locale: the stem prefix of a locale patch.
fn locale_patch_prefix(locale_lower: &Vec<char>) -> (prefix: Vec<char>)
    ensures
        prefix@ == "patch-"@ + locale_lower@,
{
    let mut prefix = chars_of("patch-");
    let ghost p0 = prefix@;
    let mut i: usize = 0;
    while i < locale_lower.len()
        invariant
            i <= locale_lower@.len(),
            prefix@ == p0 + locale_lower@.take(i as int),
        decreases locale_lower@.len() - i,
    {
        prefix.push(locale_lower[i]);
        i = i + 1;
        assert(prefix@ =~= p0 + locale_lower@.take(i as int));
    }
    assert(locale_lower@.take(i as int) =~= locale_lower@);
    prefix
}

/// The priority of an MPQ archive with the file stem `stem` (see `priority_of`).
pub fn infer_priority(stem: &str, locale: &str, is_locale_dir: bool) -> (p: i32)
    requires
        priority_of(stem@, locale@, is_locale_dir) <= i32::MAX,
    ensures
        p == priority_of(stem@, locale@, is_locale_dir),
{
    let name = to_lower_ascii(&chars_of(stem));
    let locale_lower = to_lower_ascii(&chars_of(locale));
    if is_locale_dir && has_prefix(&name, &locale_patch_prefix(&locale_lower)) {
        return 1000 + patch_number_of(&name);
    }
    if !is_locale_dir && has_prefix(&name, &chars_of("patch")) {
        return 800 + patch_number_of(&name);
    }
    if is_locale_dir {
        if has_prefix(&name, &chars_of("lichking-locale")) {
            return 600;
        } else if has_prefix(&name, &chars_of("expansion-locale")) {
            return 500;
        } else if has_prefix(&name, &chars_of("locale")) {
            return 400;
        } else if has_prefix(&name, &chars_of("speech")) {
            return 390;
        } else {
            return 300;
        }
    }
    if same_chars(&name, &chars_of("lichking")) {
        200
    } else if same_chars(&name, &chars_of("expansion")) {
        150
    } else if same_chars(&name, &chars_of("common-2")) {
        100
    } else if same_chars(&name, &chars_of("common")) {
        50
    } else {
        25
    }
}

/// Whether `infer_priority` can compute the priority of this archive in an `i32`: `false`
/// only for a patch archive whose patch number is too close to `i32::MAX`.
pub fn priority_fits(stem: &str, locale: &str, is_locale_dir: bool) -> (b: bool)
    ensures
        b == (priority_of(stem@, locale@, is_locale_dir) <= i32::MAX),
{
    let name = to_lower_ascii(&chars_of(stem));
    let locale_lower = to_lower_ascii(&chars_of(locale));
    if is_locale_dir && has_prefix(&name, &locale_patch_prefix(&locale_lower)) {
        return patch_number_of(&name) <= i32::MAX - 1000;
    }
    if !is_locale_dir && has_prefix(&name, &chars_of("patch")) {
        return patch_number_of(&name) <= i32::MAX - 800;
    }
    true
}

/// Archive `a` comes before archive `b`: a higher priority, or the same priority and an
/// earlier place in the list found.
pub open spec fn searched_before(priorities: Seq<i32>, a: int, b: int) -> bool {
    priorities[a] > priorities[b] || (priorities[a] == priorities[b] && a < b)
}

/// `order` lists the indices of `priorities` from the highest priority down, keeping the
/// order found among equal priorities (a stable sort).
pub open spec fn is_priority_order(priorities: Seq<i32>, order: Seq<usize>) -> bool {
    &&& order.len() == priorities.len()
    &&& forall|k: int| 0 <= k < order.len() ==> (#[trigger] order[k] as int) < priorities.len()
    &&& forall|a: int, b: int|
        0 <= a < b < order.len() ==> searched_before(
            priorities,
            #[trigger] order[a] as int,
            #[trigger] order[b] as int,
        )
}

/// The order in which archives are searched: by priority, highest first, and in the order
/// found among equal priorities.
pub fn priority_order(priorities: &Vec<i32>) -> (order: Vec<usize>)
    ensures
        is_priority_order(priorities@, order@),
        forall|k: usize| k < priorities@.len() ==> #[trigger] order@.contains(k),
{
    let n = priorities.len();
    let mut order: Vec<usize> = Vec::new();
    let mut idx: usize = 0;
    while idx < n
        invariant
            idx <= n == priorities@.len(),
            order@.len() == idx,
            forall|k: usize| k < idx ==> #[trigger] order@.contains(k),
            forall|k: int| 0 <= k < order@.len() ==> (#[trigger] order@[k] as int) < idx,
            forall|a: int, b: int|
                0 <= a < b < order@.len() ==> searched_before(
                    priorities@,
                    #[trigger] order@[a] as int,
                    #[trigger] order@[b] as int,
                ),
        decreases n - idx,
    {
        let p = priorities[idx];
        let mut j: usize = 0;
        while j < order.len() && priorities[order[j]] >= p
            invariant
                j <= order@.len() == idx,
                idx < n == priorities@.len(),
                forall|k: int| 0 <= k < order@.len() ==> (#[trigger] order@[k] as int) < idx,
                forall|k: int| 0 <= k < j ==> priorities@[#[trigger] order@[k] as int] >= p,
            decreases order@.len() - j,
        {
            j = j + 1;
        }
        let ghost old_order = order@;
        proof {
            assert forall|k: int| j <= k < old_order.len() implies priorities@[
                #[trigger] old_order[k] as int] < p by {
                if j < old_order.len() {
                    assert(priorities@[old_order[j as int] as int] < p);
                    if k > j {
                        assert(searched_before(
                            priorities@,
                            old_order[j as int] as int,
                            old_order[k] as int,
                        ));
                    }
                }
            }
        }
        order.insert(j, idx);
        proof {
            assert forall|a: int, b: int| 0 <= a < b < order@.len() implies searched_before(
                priorities@,
                #[trigger] order@[a] as int,
                #[trigger] order@[b] as int,
            ) by {
                if b < j {
                    assert(order@[a] == old_order[a] && order@[b] == old_order[b]);
                } else if b == j {
                    assert(order@[a] == old_order[a]);
                } else if a == j {
                    assert(order@[b] == old_order[b - 1]);
                } else if a < j {
                    assert(order@[a] == old_order[a] && order@[b] == old_order[b - 1]);
                } else {
                    assert(order@[a] == old_order[a - 1] && order@[b] == old_order[b - 1]);
                }
            }
            assert forall|k: usize| k < idx + 1 implies #[trigger] order@.contains(k) by {
                if k < idx {
                    assert(old_order.contains(k));
                    let m = choose|m: int| 0 <= m < old_order.len() && old_order[m] == k;
                    if m < j {
                        assert(order@[m] == k);
                    } else {
                        assert(order@[m + 1] == k);
                    }
                } else {
                    assert(order@[j as int] == idx);
                }
            }
            assert forall|k: int| 0 <= k < order@.len() implies (#[trigger] order@[k] as int) < idx
                + 1 by {
                if k < j {
                    assert(order@[k] == old_order[k]);
                } else if k > j {
                    assert(order@[k] == old_order[k - 1]);
                }
            }
        }
        idx = idx + 1;
    }
    order
}

/// All the names of the lists, list after list.
pub open spec fn concat_lists(lists: Seq<Seq<Seq<char>>>) -> Seq<Seq<char>>
    decreases lists.len(),
{
    if lists.len() == 0 {
        Seq::empty()
    } else {
        concat_lists(lists.drop_last()) + lists.last()
    }
}

/// `names` without repeats: each name where it first occurs.
pub open spec fn first_occurrences(names: Seq<Seq<char>>) -> Seq<Seq<char>>
    decreases names.len(),
{
    if names.len() == 0 {
        Seq::empty()
    } else if first_occurrences(names.drop_last()).contains(names.last()) {
        first_occurrences(names.drop_last())
    } else {
        first_occurrences(names.drop_last()).push(names.last())
    }
}

/// The texts of a list of names.
pub open spec fn name_texts(v: Seq<String>) -> Seq<Seq<char>> {
    Seq::new(v.len(), |i: int| v[i]@)
}

/// The file lists of several archives merged: every name once, in the order of first
/// appearance, the archives taken in the order given.
pub fn merge_file_lists(lists: &Vec<Vec<String>>) -> (result: Vec<String>)
    ensures
        name_texts(result@) == first_occurrences(
            concat_lists(Seq::new(lists@.len(), |i: int| name_texts(lists@[i]@))),
        ),
{
    let ghost all = Seq::new(lists@.len(), |i: int| name_texts(lists@[i]@));
    let mut result: Vec<String> = Vec::new();
    let mut li: usize = 0;
    assert(all.take(0) =~= Seq::<Seq<Seq<char>>>::empty());
    assert(name_texts(result@) =~= Seq::<Seq<char>>::empty());
    while li < lists.len()
        invariant
            li <= lists@.len(),
            all == Seq::new(lists@.len(), |i: int| name_texts(lists@[i]@)),
            name_texts(result@) == first_occurrences(concat_lists(all.take(li as int))),
        decreases lists@.len() - li,
    {
        let list = &lists[li];
        let ghost before = concat_lists(all.take(li as int));
        let mut k: usize = 0;
        assert(before + name_texts(list@).take(0) =~= before);
        while k < list.len()
            invariant
                k <= list@.len(),
                name_texts(result@) == first_occurrences(before + name_texts(list@).take(k as int)),
            decreases list@.len() - k,
        {
            let f = &list[k];
            let mut seen = false;
            let mut q: usize = 0;
            while q < result.len()
                invariant
                    q <= result@.len(),
                    seen == (exists|m: int| 0 <= m < q && result@[m]@ == f@),
                decreases result@.len() - q,
            {
                if result[q] == *f {
                    seen = true;
                }
                q = q + 1;
            }
            let ghost prev = before + name_texts(list@).take(k as int);
            let ghost next = before + name_texts(list@).take(k + 1);
            assert(next.drop_last() =~= prev);
            assert(next.last() == f@);
            assert(seen == name_texts(result@).contains(f@)) by {
                if name_texts(result@).contains(f@) {
                    let m = choose|m: int|
                        0 <= m < name_texts(result@).len() && name_texts(result@)[m] == f@;
                    assert(result@[m]@ == f@);
                }
                if seen {
                    let m = choose|m: int| 0 <= m < q && result@[m]@ == f@;
                    assert(name_texts(result@)[m] == f@);
                }
            }
            if !seen {
                let ghost old_texts = name_texts(result@);
                result.push(f.clone());
                assert(name_texts(result@) =~= old_texts.push(f@));
            }
            k = k + 1;
        }
        assert(all.take(li + 1).drop_last() =~= all.take(li as int));
        assert(name_texts(list@).take(k as int) =~= name_texts(list@));
        assert(all.take(li + 1).last() == name_texts(list@));
        li = li + 1;
    }
    assert(all.take(li as int) =~= all);
    result
}

proof fn lemma_after_last_has_no(s: Seq<char>, c: char)
    ensures
        forall|i: int| 0 <= i < after_last(s, c).len() ==> after_last(s, c)[i] != c,
    decreases s.len(),
{
    if s.len() > 0 && s.last() != c {
        lemma_after_last_has_no(s.drop_last(), c);
        let r = after_last(s.drop_last(), c);
        assert forall|i: int| 0 <= i < r.push(s.last()).len() implies r.push(s.last())[i] != c by {
            if i < r.len() {
                assert(r.push(s.last())[i] == r[i]);
            }
        }
    }
}

/// A patch number is never negative: the text after the last `-` holds no `-`.
pub proof fn law_patch_value_nonneg(name: Seq<char>)
    ensures
        patch_value(name) >= 0,
{
    let seg = after_last(name, '-');
    lemma_after_last_has_no(name, '-');
    let digits = unsigned_part(seg);
    if digits.len() > 0 && forall|i: int| 0 <= i < digits.len() ==> is_digit(digits[i]) {
        lemma_digits_nonneg(digits);
    }
}

/// The priorities of the archives in the locale directory, by the start of the lower-case
/// stem: a patch of the locale (`patch-` and the locale) gets 1000 plus its patch number;
/// otherwise `lichking-locale` 600, `expansion-locale` 500, `locale` 400, `speech` 390,
/// and any other name 300.
pub proof fn law_locale_dir_priorities(stem: Seq<char>, locale: Seq<char>)
    ensures
        starts_with(lower_ascii(stem), "patch-"@ + lower_ascii(locale)) ==> priority_of(
            stem,
            locale,
            true,
        ) == 1000 + patch_value(lower_ascii(stem)),
        !starts_with(lower_ascii(stem), "patch-"@ + lower_ascii(locale)) ==> {
            let n = lower_ascii(stem);
            let p = priority_of(stem, locale, true);
            &&& starts_with(n, "lichking-locale"@) ==> p == 600
            &&& !starts_with(n, "lichking-locale"@) && starts_with(n, "expansion-locale"@) ==> p
                == 500
            &&& !starts_with(n, "lichking-locale"@) && !starts_with(n, "expansion-locale"@)
                && starts_with(n, "locale"@) ==> p == 400
            &&& !starts_with(n, "lichking-locale"@) && !starts_with(n, "expansion-locale"@)
                && !starts_with(n, "locale"@) && starts_with(n, "speech"@) ==> p == 390
            &&& !starts_with(n, "lichking-locale"@) && !starts_with(n, "expansion-locale"@)
                && !starts_with(n, "locale"@) && !starts_with(n, "speech"@) ==> p == 300
        },
{
}

/// The priorities of the archives in the data directory, by the lower-case stem: a patch
/// (`patch...`) gets 800 plus its patch number; otherwise exactly `lichking` 200,
/// `expansion` 150, `common-2` 100, `common` 50, and any other name 25.
pub proof fn law_data_dir_priorities(stem: Seq<char>, locale: Seq<char>)
    ensures
        starts_with(lower_ascii(stem), "patch"@) ==> priority_of(stem, locale, false) == 800
            + patch_value(lower_ascii(stem)),
        !starts_with(lower_ascii(stem), "patch"@) ==> {
            let n = lower_ascii(stem);
            let p = priority_of(stem, locale, false);
            &&& n == "lichking"@ ==> p == 200
            &&& n == "expansion"@ ==> p == 150
            &&& n == "common-2"@ ==> p == 100
            &&& n == "common"@ ==> p == 50
            &&& n != "lichking"@ && n != "expansion"@ && n != "common-2"@ && n != "common"@ ==> p
                == 25
        },
{
    reveal_strlit("lichking");
    reveal_strlit("expansion");
    reveal_strlit("common-2");
    reveal_strlit("common");
    assert("lichking"@ != "expansion"@ && "lichking"@ != "common-2"@ && "lichking"@ != "common"@)
        by {
        assert("lichking"@[0] != "expansion"@[0] && "lichking"@[0] != "common-2"@[0]);
        assert("lichking"@.len() != "common"@.len());
    }
    assert("expansion"@ != "common-2"@ && "expansion"@ != "common"@) by {
        assert("expansion"@[0] != "common-2"@[0] && "expansion"@[0] != "common"@[0]);
    }
    assert("common-2"@ != "common"@) by {
        assert("common-2"@.len() != "common"@.len());
    }
}

/// In the data directory every patch archive is searched before every other archive.
pub proof fn law_patches_first(patch: Seq<char>, other: Seq<char>, locale: Seq<char>)
    requires
        starts_with(lower_ascii(patch), "patch"@),
        !starts_with(lower_ascii(other), "patch"@),
    ensures
        priority_of(patch, locale, false) > priority_of(other, locale, false),
{
    law_patch_value_nonneg(lower_ascii(patch));
}

/// In the locale directory every patch archive of the locale is searched before every
/// other archive there.
pub proof fn law_locale_patches_first(patch: Seq<char>, other: Seq<char>, locale: Seq<char>)
    requires
        starts_with(lower_ascii(patch), "patch-"@ + lower_ascii(locale)),
        !starts_with(lower_ascii(other), "patch-"@ + lower_ascii(locale)),
    ensures
        priority_of(patch, locale, true) > priority_of(other, locale, true),
{
    law_patch_value_nonneg(lower_ascii(patch));
}

/// Every archive of the locale directory is searched before every archive of the data
/// directory that is not a patch.
pub proof fn law_locale_before_base(locale_archive: Seq<char>, base: Seq<char>, locale: Seq<char>)
    requires
        !starts_with(lower_ascii(base), "patch"@),
    ensures
        priority_of(locale_archive, locale, true) > priority_of(base, locale, false),
{
    law_patch_value_nonneg(lower_ascii(locale_archive));
}

proof fn lemma_first_occurrences(names: Seq<Seq<char>>)
    ensures
        forall|a: int, b: int|
            0 <= a < b < first_occurrences(names).len() ==> first_occurrences(names)[a]
                != first_occurrences(names)[b],
        forall|n: Seq<char>| first_occurrences(names).contains(n) <==> names.contains(n),
    decreases names.len(),
{
    if names.len() > 0 {
        let prev = first_occurrences(names.drop_last());
        lemma_first_occurrences(names.drop_last());
        assert(names =~= names.drop_last().push(names.last()));
        assert forall|n: Seq<char>| first_occurrences(names).contains(n) <==> names.contains(n) by {
            if names.contains(n) && !names.drop_last().contains(n) {
                let k = choose|k: int| 0 <= k < names.len() && names[k] == n;
                if k < names.len() - 1 {
                    assert(names.drop_last()[k] == n);
                }
                assert(n == names.last());
                if !prev.contains(n) {
                    assert(prev.push(n)[prev.len() as int] == n);
                }
            }
            if first_occurrences(names).contains(n) && !prev.contains(n) {
                let k = choose|k: int|
                    0 <= k < first_occurrences(names).len() && first_occurrences(names)[k] == n;
                if k < prev.len() {
                    assert(prev[k] == n);
                }
                assert(names[names.len() - 1] == n);
            }
            if names.drop_last().contains(n) {
                let k = choose|k: int| 0 <= k < names.drop_last().len() && names.drop_last()[k] == n;
                assert(names[k] == n);
            }
            if prev.contains(n) {
                let k = choose|k: int| 0 <= k < prev.len() && prev[k] == n;
                if !first_occurrences(names).contains(n) {
                    assert(first_occurrences(names)[k] == n);
                }
            }
        }
    }
}

/// Merging the archives' file lists keeps every name of every list, and each only once.
pub proof fn law_merge_each_name_once(lists: Seq<Seq<Seq<char>>>)
    ensures
        forall|a: int, b: int|
            0 <= a < b < first_occurrences(concat_lists(lists)).len() ==> first_occurrences(
                concat_lists(lists),
            )[a] != first_occurrences(concat_lists(lists))[b],
        forall|n: Seq<char>|
            first_occurrences(concat_lists(lists)).contains(n) <==> concat_lists(lists).contains(n),
{
    lemma_first_occurrences(concat_lists(lists));
}

} // verus!
