use vstd::prelude::*;
use vstd::string::StringExecFns;

verus! {

/// What the login flow reads of an account profile.
#[derive(Debug, Clone)]
pub struct ProfileInfo {
    pub profile_name: String,
    pub is_primary: bool,
    pub is_selected: bool,
}

/// Why no profile could be picked.
#[derive(Debug, Clone, PartialEq, Eq)]
pub enum ProfileError {
    NoProfiles,
    NotFound,
}

/// A character's code with ASCII upper case folded to lower case.
pub open spec fn ascii_fold(c: char) -> u32 {
    if 65 <= (c as u32) && (c as u32) <= 90 {
        (c as u32 + 32) as u32
    } else {
        c as u32
    }
}

/// Equality ignoring ASCII case.
pub open spec fn same_ignoring_ascii_case(a: Seq<char>, b: Seq<char>) -> bool {
    a.len() == b.len() && forall|i: int| 0 <= i < a.len() ==> ascii_fold(#[trigger] a[i]) == ascii_fold(b[i])
}

fn fold_char(c: char) -> (r: u32)
    ensures
        r == ascii_fold(c),
{
    let n = c as u32;
    if 65 <= n && n <= 90 {
        n + 32
    } else {
        n
    }
}

pub fn eq_ignore_ascii_case(a: &str, b: &str) -> (r: bool)
    ensures
        r == same_ignoring_ascii_case(a@, b@),
{
    let n = a.unicode_len();
    if n != b.unicode_len() {
        return false;
    }
    let mut i: usize = 0;
    while i < n
        invariant
            n == a@.len(),
            n == b@.len(),
            i <= n,
            forall|k: int| 0 <= k < i ==> ascii_fold(#[trigger] a@[k]) == ascii_fold(b@[k]),
        decreases n - i,
    {
        if fold_char(a.get_char(i)) != fold_char(b.get_char(i)) {
            return false;
        }
        i = i + 1;
    }
    true
}

/// The first profile whose name matches `name` ignoring ASCII case.
pub fn match_profile(profiles: &Vec<ProfileInfo>, name: &str) -> (r: Result<usize, ProfileError>)
    ensures
        profiles@.len() == 0 <==> r == Err::<usize, ProfileError>(ProfileError::NoProfiles),
        r == Err::<usize, ProfileError>(ProfileError::NotFound) <==> (profiles@.len() > 0 && forall|i: int|
            0 <= i < profiles@.len() ==> !same_ignoring_ascii_case(#[trigger] profiles@[i].profile_name@, name@)),
        r matches Ok(i) ==> i < profiles@.len() && same_ignoring_ascii_case(profiles@[i as int].profile_name@, name@)
            && forall|j: int| 0 <= j < i ==> !same_ignoring_ascii_case(#[trigger] profiles@[j].profile_name@, name@),
{
    if profiles.len() == 0 {
        return Err(ProfileError::NoProfiles);
    }
    let mut i: usize = 0;
    while i < profiles.len()
        invariant
            i <= profiles@.len(),
            forall|j: int| 0 <= j < i ==> !same_ignoring_ascii_case(#[trigger] profiles@[j].profile_name@, name@),
        decreases profiles@.len() - i,
    {
        if eq_ignore_ascii_case(profiles[i].profile_name.as_str(), name) {
            return Ok(i);
        }
        i = i + 1;
    }
    Err(ProfileError::NotFound)
}

/// A profile's entry in the selection menu.
pub fn profile_menu_label(p: &ProfileInfo) -> (r: String)
    ensures
        r@ == if p.is_primary { p.profile_name@ + " (primary)"@ } else { p.profile_name@ },
{
    let mut out = p.profile_name.clone();
    if p.is_primary {
        out.append(" (primary)");
    }
    out
}


/// The suffix listing a profile's flags in the account overview:
/// " (primary, selected)", " (primary)", " (selected)" or nothing.
pub open spec fn status_suffix_spec(p: ProfileInfo) -> Seq<char> {
    if p.is_primary && p.is_selected {
        " (primary, selected)"@
    } else if p.is_primary {
        " (primary)"@
    } else if p.is_selected {
        " (selected)"@
    } else {
        Seq::empty()
    }
}

pub fn profile_status_suffix(p: &ProfileInfo) -> (r: String)
    ensures
        r@ == status_suffix_spec(*p),
{
    if p.is_primary && p.is_selected {
        String::from_str(" (primary, selected)")
    } else if p.is_primary {
        String::from_str(" (primary)")
    } else if p.is_selected {
        String::from_str(" (selected)")
    } else {
        String::new()
    }
}

/// What `str::to_lowercase` returns for a string: Unicode lower-case mapping.
pub uninterp spec fn lower_of(s: Seq<char>) -> Seq<char>;

/// Relies on `str::to_lowercase`: the result depends on the characters alone.
#[verifier::external_body]
fn lowercase(s: &str) -> (r: String)
    ensures
        r@ == lower_of(s@),
{
    s.to_lowercase()
}

/// `s` with every space turned into an underscore.
pub open spec fn underscore_spaces(s: Seq<char>) -> Seq<char> {
    s.map_values(|c: char| if c == ' ' { '_' } else { c })
}

/// Relies on `str::replace` with a `char` pattern: every occurrence of the
/// character is replaced by the given string, the rest is kept in order.
#[verifier::external_body]
fn replace_spaces(s: &str) -> (r: String)
    ensures
        r@ == underscore_spaces(s@),
{
    s.replace(' ', "_")
}

/// The username of a new profile, from its already lower-cased name.
pub fn username_from_lowercase(lower: &str) -> (r: String)
    ensures
        r@ == underscore_spaces(lower@),
{
    replace_spaces(lower)
}

/// The username of a new profile: its name lower-cased, spaces as underscores.
pub fn profile_username(name: &str) -> (r: String)
    ensures
        r@ == underscore_spaces(lower_of(name@)),
{
    let lower = lowercase(name);
    username_from_lowercase(lower.as_str())
}

} // verus!
