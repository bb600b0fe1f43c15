//! Which files may serve as a project icon: the raster formats the editor and the read-side image
//! sniff accept, recognised by the path's extension, in any ASCII case.

use vstd::prelude::*;

use crate::text::chars_of;

verus! {

/// The extension `std::path::Path::extension` finds in `path` (the part of the file name after its
/// last `.`, if any), as text.
pub uninterp spec fn path_extension(path: Seq<char>) -> Option<Seq<char>>;

/// The extension of `path`, by `std::path::Path::extension`. A `&str` path is valid UTF-8, so its
/// extension is too and converts to text whole. What the extension is, is left to std (named by
/// [`path_extension`]), not restated here.
#[verifier::external_body]
fn extension_of(path: &str) -> (r: Option<String>)
    ensures
        match r {
            Some(e) => path_extension(path@) == Some(e@),
            None => path_extension(path@) is None,
        },
{
    match std::path::Path::new(path).extension() {
        Some(ext) => match ext.to_str() {
            Some(text) => Some(text.to_owned()),
            None => None,
        },
        None => None,
    }
}

/// The image formats a project icon may use, in lower case.
pub open spec fn icon_extensions() -> Seq<Seq<char>> {
    seq![
        seq!['p', 'n', 'g'],
        seq!['j', 'p', 'g'],
        seq!['j', 'p', 'e', 'g'],
        seq!['g', 'i', 'f'],
        seq!['i', 'c', 'o'],
        seq!['w', 'e', 'b', 'p'],
    ]
}

/// The code of `c` with an ASCII capital lowered.
pub open spec fn lower_code(c: char) -> u32 {
    if 65 <= (c as u32) && (c as u32) <= 90 {
        (c as u32 + 32) as u32
    } else {
        c as u32
    }
}

/// `e` is `name` once its ASCII capitals are lowered.
pub open spec fn lowers_to(e: Seq<char>, name: Seq<char>) -> bool {
    &&& e.len() == name.len()
    &&& forall|i: int| 0 <= i < e.len() ==> lower_code(#[trigger] e[i]) == name[i] as u32
}

/// Whether `e`, ASCII case aside, is one of the supported formats.
pub open spec fn supported_extension(e: Seq<char>) -> bool {
    exists|k: int| 0 <= k < icon_extensions().len() && lowers_to(e, #[trigger] icon_extensions()[k])
}

/// Whether `path` names a supported icon: it has an extension, and that is a supported format.
pub open spec fn spec_supported_icon(path: Seq<char>) -> bool {
    match path_extension(path) {
        Some(e) => supported_extension(e),
        None => false,
    }
}

fn lowers_to_exec(e: &Vec<char>, name: &Vec<char>) -> (r: bool)
    ensures
        r == lowers_to(e@, name@),
{
    if e.len() != name.len() {
        return false;
    }
    let mut i: usize = 0;
    while i < e.len()
        invariant
            e@.len() == name@.len(),
            i <= e@.len(),
            forall|j: int| 0 <= j < i ==> lower_code(#[trigger] e@[j]) == name@[j] as u32,
        decreases e@.len() - i,
    {
        let c = e[i] as u32;
        let lowered = if 65 <= c && c <= 90 {
            c + 32
        } else {
            c
        };
        if lowered != name[i] as u32 {
            return false;
        }
        i += 1;
    }
    true
}

/// Whether the extension `ext` is a supported icon format: png, jpg, jpeg, gif, ico or webp, in
/// any ASCII case.
pub fn is_supported_extension(ext: &str) -> (r: bool)
    ensures
        r == supported_extension(ext@),
{
    let e = chars_of(ext);
    let names: Vec<Vec<char>> = vec![
        vec!['p', 'n', 'g'],
        vec!['j', 'p', 'g'],
        vec!['j', 'p', 'e', 'g'],
        vec!['g', 'i', 'f'],
        vec!['i', 'c', 'o'],
        vec!['w', 'e', 'b', 'p'],
    ];
    assert(names@.len() == 6);
    assert(forall|k: int| 0 <= k < 6 ==> (#[trigger] names@[k])@ == icon_extensions()[k]);
    let mut k: usize = 0;
    while k < names.len()
        invariant
            names@.len() == 6,
            forall|j: int| 0 <= j < 6 ==> (#[trigger] names@[j])@ == icon_extensions()[j],
            k <= 6,
            e@ == ext@,
            forall|j: int| 0 <= j < k ==> !lowers_to(e@, #[trigger] icon_extensions()[j]),
        decreases 6 - k,
    {
        if lowers_to_exec(&e, &names[k]) {
            assert(lowers_to(e@, icon_extensions()[k as int]));
            return true;
        }
        k += 1;
    }
    false
}

/// Whether `path` names a supported icon, matched against the path's extension so an unsupported
/// file is rejected at the write.
pub fn is_supported_icon(path: &str) -> (r: bool)
    ensures
        r == spec_supported_icon(path@),
{
    match extension_of(path) {
        Some(e) => is_supported_extension(e.as_str()),
        None => false,
    }
}


/// `e` spells `name`, a lower-case ASCII word, with any of its letters in capitals (each character
/// has the code of the letter or of its capital, 32 below).
pub open spec fn spells_any_case(e: Seq<char>, name: Seq<char>) -> bool {
    &&& e.len() == name.len()
    &&& forall|i: int|
        0 <= i < e.len() ==> (e[i] as u32) == (name[i] as u32) || (e[i] as u32) + 32 == (
            #[trigger] name[i] as u32)
}

proof fn lemma_lowers_to_spells(e: Seq<char>, name: Seq<char>)
    requires
        forall|i: int| 0 <= i < name.len() ==> 97 <= (#[trigger] name[i] as u32) <= 122,
    ensures
        lowers_to(e, name) == spells_any_case(e, name),
{
    if lowers_to(e, name) {
        assert forall|i: int| 0 <= i < e.len() implies (e[i] as u32) == (name[i] as u32) || (e[i]
            as u32) + 32 == (#[trigger] name[i] as u32) by {
            assert(lower_code(e[i]) == name[i] as u32);
        }
    }
    if spells_any_case(e, name) {
        assert forall|i: int| 0 <= i < e.len() implies lower_code(#[trigger] e[i]) == name[i] as u32 by {
            assert(97 <= (name[i] as u32) <= 122);
        }
    }
}

/// The supported icon formats are exactly png, jpg, jpeg, gif, ico and webp, each in any ASCII
/// case: an extension is accepted when it spells one of the six, and only then.
pub proof fn law_the_six_icon_formats_are_exactly_the_accepted_ones(e: Seq<char>)
    ensures
        supported_extension(e) == (spells_any_case(e, seq!['p', 'n', 'g'])
            || spells_any_case(e, seq!['j', 'p', 'g'])
            || spells_any_case(e, seq!['j', 'p', 'e', 'g'])
            || spells_any_case(e, seq!['g', 'i', 'f'])
            || spells_any_case(e, seq!['i', 'c', 'o'])
            || spells_any_case(e, seq!['w', 'e', 'b', 'p'])),
{
    let names = seq![
        seq!['p', 'n', 'g'],
        seq!['j', 'p', 'g'],
        seq!['j', 'p', 'e', 'g'],
        seq!['g', 'i', 'f'],
        seq!['i', 'c', 'o'],
        seq!['w', 'e', 'b', 'p'],
    ];
    assert forall|k: int| 0 <= k < 6 implies lowers_to(e, #[trigger] icon_extensions()[k])
        == spells_any_case(e, names[k]) by {
        assert(icon_extensions()[k] == names[k]);
        lemma_lowers_to_spells(e, names[k]);
    }
    if supported_extension(e) {
        let k = choose|k: int| 0 <= k < icon_extensions().len() && lowers_to(e, #[trigger] icon_extensions()[k]);
        assert(spells_any_case(e, names[k]));
    }
    if spells_any_case(e, names[0]) { assert(lowers_to(e, icon_extensions()[0])); }
    if spells_any_case(e, names[1]) { assert(lowers_to(e, icon_extensions()[1])); }
    if spells_any_case(e, names[2]) { assert(lowers_to(e, icon_extensions()[2])); }
    if spells_any_case(e, names[3]) { assert(lowers_to(e, icon_extensions()[3])); }
    if spells_any_case(e, names[4]) { assert(lowers_to(e, icon_extensions()[4])); }
    if spells_any_case(e, names[5]) { assert(lowers_to(e, icon_extensions()[5])); }
}

} // verus!
