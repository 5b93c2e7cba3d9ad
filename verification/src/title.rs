//! Container addressing: the directory of a title's container under a data
//! root, and the way back from directory names to title identifiers.

use vstd::prelude::*;
use crate::container::{kind_dir_name, lemma_kind_names_round_trip, parse_kind, Container};
use crate::ticket::TransferError;

verus! {

/// The upper-case hexadecimal digit for a value below sixteen.
pub open spec fn upper_hex_char(d: int) -> char {
    if d < 10 {
        (('0' as u8) + d) as u8 as char
    } else {
        (('A' as u8) + d - 10) as u8 as char
    }
}

/// A number in upper-case hexadecimal, without leading zeros; zero is `0`.
pub open spec fn hex_upper(n: nat) -> Seq<char>
    decreases n,
{
    if n < 16 {
        seq![upper_hex_char(n as int)]
    } else {
        hex_upper(n / 16).push(upper_hex_char((n % 16) as int))
    }
}

/// The value of a hexadecimal digit of either case; no other character has
/// one.
pub open spec fn hex_digit_value(c: char) -> Option<int> {
    if '0' <= c && c <= '9' {
        Some(c as int - '0' as int)
    } else if 'a' <= c && c <= 'f' {
        Some(c as int - 'a' as int + 10)
    } else if 'A' <= c && c <= 'F' {
        Some(c as int - 'A' as int + 10)
    } else {
        None
    }
}

/// Whether a text consists of hexadecimal digits only.
pub open spec fn all_hex(s: Seq<char>) -> bool {
    forall|i: int| 0 <= i < s.len() ==> hex_digit_value(#[trigger] s[i]).is_some()
}

/// The number that a text of hexadecimal digits writes, the most
/// significant digit first.
pub open spec fn hex_value(s: Seq<char>) -> nat
    decreases s.len(),
{
    if s.len() == 0 {
        0
    } else {
        let d = match hex_digit_value(s.last()) {
            Some(d) => d as nat,
            None => 0,
        };
        hex_value(s.drop_last()) * 16 + d
    }
}

/// The digits of a text: the text without one leading `+`.
pub open spec fn unsigned_part(s: Seq<char>) -> Seq<char> {
    if s.len() > 0 && s[0] == '+' {
        s.subrange(1, s.len() as int)
    } else {
        s
    }
}

/// The title identifier that a directory name writes: one or more
/// hexadecimal digits of either case, after an optional `+`, whose value
/// fits in 64 bits.
pub open spec fn parse_hex(s: Seq<char>) -> Option<u64> {
    let digits = unsigned_part(s);
    if digits.len() > 0 && all_hex(digits) && hex_value(digits) <= u64::MAX {
        Some(hex_value(digits) as u64)
    } else {
        None
    }
}

/// A base directory with one more component below it. A separator is put
/// between the two unless the base is empty or ends in one.
pub open spec fn joined(base: Seq<char>, name: Seq<char>) -> Seq<char> {
    if base.len() == 0 || base.last() == '/' {
        base + name
    } else {
        base.push('/') + name
    }
}

/// The directory of a title under a data root.
pub open spec fn title_dir(root: Seq<char>, title_id: u64) -> Seq<char> {
    joined(root, hex_upper(title_id as nat))
}

/// The directory of a title's container under a data root.
pub open spec fn container_dir(root: Seq<char>, title_id: u64, kind: Container) -> Seq<char> {
    joined(title_dir(root, title_id), kind_dir_name(kind))
}

/// The value of a text does not shrink when digits are appended.
proof fn lemma_hex_value_grows(s: Seq<char>, k: int)
    requires
        0 <= k <= s.len(),
    ensures
        hex_value(s.subrange(0, k)) <= hex_value(s),
    decreases s.len() - k,
{
    if k == s.len() {
        assert(s.subrange(0, k) =~= s);
    } else {
        lemma_hex_value_grows(s, k + 1);
        assert(s.subrange(0, k + 1).drop_last() =~= s.subrange(0, k));
    }
}

/// The upper-case digit of a value below sixteen.
fn upper_hex_digit(d: u8) -> (c: char)
    requires
        d < 16,
    ensures
        c == upper_hex_char(d as int),
        hex_digit_value(c) == Some(d as int),
{
    if d < 10 {
        (48u8 + d) as char
    } else {
        (55u8 + d) as char
    }
}

/// Appends a number in upper-case hexadecimal to a text.
fn push_hex_upper(out: &mut String, n: u64)
    ensures
        final(out)@ == old(out)@ + hex_upper(n as nat),
    decreases n,
{
    if n >= 16 {
        push_hex_upper(out, n / 16);
    }
    let d: u8 = (n % 16) as u8;
    out.push(upper_hex_digit(d));
    proof {
        assert(out@ =~= old(out)@ + hex_upper(n as nat));
    }
}

/// The directory name of a title: its identifier in upper-case hexadecimal.
pub fn title_dir_name(title_id: u64) -> (name: String)
    ensures
        name@ == hex_upper(title_id as nat),
{
    let mut name = String::new();
    push_hex_upper(&mut name, title_id);
    proof {
        assert(Seq::<char>::empty() + hex_upper(title_id as nat) =~= hex_upper(title_id as nat));
    }
    name
}

/// The value of one hexadecimal digit.
fn digit_value(c: char) -> (r: Option<u8>)
    ensures
        match r {
            Some(d) => d < 16 && hex_digit_value(c) == Some(d as int),
            None => hex_digit_value(c).is_none(),
        },
{
    if '0' <= c && c <= '9' {
        Some((c as u8) - 48)
    } else if 'a' <= c && c <= 'f' {
        Some((c as u8) - 87)
    } else if 'A' <= c && c <= 'F' {
        Some((c as u8) - 55)
    } else {
        None
    }
}

/// Reads a title identifier from the name of its directory.
pub fn parse_title_id(name: &str) -> (r: Option<u64>)
    ensures
        r == parse_hex(name@),
{
    let n: usize = name.unicode_len();
    let mut i: usize = 0;
    if n > 0 && name.get_char(0) == '+' {
        i = 1;
    }
    let start: usize = i;
    let ghost digits = unsigned_part(name@);
    if i == n {
        return None;
    }
    let mut value: u64 = 0;
    proof {
        assert(digits.subrange(0, 0).len() == 0);
    }
    while i < n
        invariant
            start <= i <= n,
            n == name@.len(),
            start <= 1,
            digits == unsigned_part(name@),
            digits == name@.subrange(start as int, n as int),
            all_hex(digits.subrange(0, i - start)),
            value == hex_value(digits.subrange(0, i - start)),
        decreases n - i,
    {
        let ghost seen = digits.subrange(0, i - start);
        let ghost next = digits.subrange(0, i - start + 1);
        proof {
            assert(next.drop_last() =~= seen);
            assert(next.last() == name@[i as int]);
        }
        match digit_value(name.get_char(i)) {
            None => {
                proof {
                    assert(digits[i - start] == name@[i as int]);
                }
                return None;
            },
            Some(d) => {
                if value > (u64::MAX - (d as u64)) / 16 {
                    proof {
                        assert(hex_value(next) > u64::MAX);
                        lemma_hex_value_grows(digits, i - start + 1);
                    }
                    return None;
                }
                value = value * 16 + (d as u64);
                proof {
                    assert forall|j: int| 0 <= j < next.len() implies hex_digit_value(
                        #[trigger] next[j],
                    ).is_some() by {
                        if j < seen.len() {
                            assert(next[j] == seen[j]);
                        }
                    }
                }
            },
        }
        i += 1;
    }
    proof {
        assert(digits.subrange(0, i - start) =~= digits);
    }
    Some(value)
}

/// Every identifier is read back from its directory name.
pub proof fn lemma_title_dir_name_round_trip(title_id: u64)
    ensures
        parse_hex(hex_upper(title_id as nat)) == Some(title_id),
{
    lemma_hex_upper_value(title_id as nat);
}

/// A number in upper-case hexadecimal is a non-empty text of digits that
/// does not begin with `+` and writes the number.
pub proof fn lemma_hex_upper_value(n: nat)
    ensures
        hex_upper(n).len() > 0,
        all_hex(hex_upper(n)),
        hex_upper(n)[0] != '+',
        hex_value(hex_upper(n)) == n,
    decreases n,
{
    let text = hex_upper(n);
    if n < 16 {
        assert(text.drop_last() =~= Seq::<char>::empty());
        assert(hex_digit_value(upper_hex_char(n as int)) == Some(n as int));
        assert(hex_value(text.drop_last()) == 0);
    } else {
        lemma_hex_upper_value(n / 16);
        let front = hex_upper(n / 16);
        let d = (n % 16) as int;
        assert(text.drop_last() =~= front);
        assert(text.last() == upper_hex_char(d));
        assert(hex_digit_value(upper_hex_char(d)) == Some(d));
        assert(text[0] == front[0]);
        assert forall|i: int| 0 <= i < text.len() implies hex_digit_value(
            #[trigger] text[i],
        ).is_some() by {
            if i < front.len() {
                assert(text[i] == front[i]);
            }
        }
    }
}

/// Puts one more component below a base directory.
pub fn join_path(base: &str, name: &str) -> (path: String)
    ensures
        path@ == joined(base@, name@),
{
    let n: usize = base.unicode_len();
    let mut path = String::from_str(base);
    if n > 0 && base.get_char(n - 1) != '/' {
        path.push('/');
    }
    path.append(name);
    path
}

/// The directory of a title's container under a data root, for the kind
/// that `container` names. A text that names no kind is refused.
pub fn container_path(root: &str, title_id: u64, container: &str) -> (r: Result<
    String,
    TransferError,
>)
    ensures
        match parse_kind(container@) {
            Some(kind) => r matches Ok(path) && path@ == container_dir(root@, title_id, kind),
            None => r == Err::<String, TransferError>(TransferError::InvalidContainer),
        },
{
    match Container::from_str(container) {
        None => Err(TransferError::InvalidContainer),
        Some(kind) => Ok(container_path_of(root, title_id, kind)),
    }
}

/// The directory of a title's container under a data root.
pub fn container_path_of(root: &str, title_id: u64, kind: Container) -> (path: String)
    ensures
        path@ == container_dir(root@, title_id, kind),
{
    let title = join_path(root, title_dir_name(title_id).as_str());
    join_path(title.as_str(), kind.dir_name().as_str())
}

/// Whether a text holds no `/`.
pub open spec fn has_no_slash(s: Seq<char>) -> bool {
    forall|i: int| 0 <= i < s.len() ==> s[i] != '/'
}

/// The last component of a path: what follows its last `/`, or all of it.
pub open spec fn last_component(path: Seq<char>) -> Seq<char>
    decreases path.len(),
{
    if path.len() == 0 || path.last() == '/' {
        Seq::empty()
    } else {
        last_component(path.drop_last()).push(path.last())
    }
}

/// The directory a path lies in: what precedes its last `/`, or nothing.
pub open spec fn parent_dir(path: Seq<char>) -> Seq<char>
    decreases path.len(),
{
    if path.len() == 0 {
        Seq::empty()
    } else if path.last() == '/' {
        path.drop_last()
    } else {
        parent_dir(path.drop_last())
    }
}

/// The title and the kind that the directory of a container stands for:
/// read from the names of its last two components.
pub open spec fn located(path: Seq<char>) -> Option<(u64, Container)> {
    match (parse_hex(last_component(parent_dir(path))), parse_kind(last_component(path))) {
        (Some(id), Some(kind)) => Some((id, kind)),
        _ => None,
    }
}

/// A path splits at a `/` that no other `/` follows.
proof fn lemma_split_at_last_slash(path: Seq<char>, k: int)
    requires
        0 <= k < path.len(),
        path[k] == '/',
        has_no_slash(path.subrange(k + 1, path.len() as int)),
    ensures
        last_component(path) == path.subrange(k + 1, path.len() as int),
        parent_dir(path) == path.subrange(0, k),
    decreases path.len() - k,
{
    if k == path.len() - 1 {
        assert(path.subrange(k + 1, path.len() as int) =~= Seq::<char>::empty());
        assert(path.drop_last() =~= path.subrange(0, k));
    } else {
        let front = path.drop_last();
        let tail = path.subrange(k + 1, path.len() as int);
        assert(tail[tail.len() - 1] == path.last());
        let middle = front.subrange(k + 1, front.len() as int);
        assert forall|i: int| 0 <= i < middle.len() implies middle[i] != '/' by {
            assert(tail[i] == middle[i]);
        }
        lemma_split_at_last_slash(front, k);
        assert(middle.push(path.last()) =~= tail);
        assert(front.subrange(0, k) =~= path.subrange(0, k));
    }
}

/// A path without `/` is its own last component and lies in no directory.
proof fn lemma_single_component(path: Seq<char>)
    requires
        has_no_slash(path),
    ensures
        last_component(path) == path,
        parent_dir(path) == Seq::<char>::empty(),
    decreases path.len(),
{
    if path.len() > 0 {
        let front = path.drop_last();
        assert(path[path.len() - 1] != '/');
        assert forall|i: int| 0 <= i < front.len() implies front[i] != '/' by {
            assert(front[i] == path[i]);
        }
        lemma_single_component(front);
        assert(front.push(path.last()) =~= path);
    }
}

/// Joining a name without `/` to a base gives a path whose last component
/// is the name.
proof fn lemma_joined_last_component(base: Seq<char>, name: Seq<char>)
    requires
        has_no_slash(name),
    ensures
        last_component(joined(base, name)) == name,
        base.len() > 0 && base.last() != '/' ==> parent_dir(joined(base, name)) == base,
{
    let path = joined(base, name);
    if base.len() == 0 {
        assert(path =~= name);
        lemma_single_component(name);
    } else if base.last() == '/' {
        let k = base.len() - 1;
        assert(path[k] == '/');
        assert(path.subrange(k + 1, path.len() as int) =~= name);
        lemma_split_at_last_slash(path, k);
    } else {
        let k = base.len() as int;
        assert(path[k] == '/');
        assert(path.subrange(k + 1, path.len() as int) =~= name);
        assert(path.subrange(0, k) =~= base);
        lemma_split_at_last_slash(path, k);
    }
}

/// Resolving is invertible: the title and the kind are read back from the
/// directory of a container, whatever the data root.
pub proof fn lemma_resolve_round_trip(root: Seq<char>, title_id: u64, kind: Container)
    ensures
        located(container_dir(root, title_id, kind)) == Some((title_id, kind)),
{
    let hex = hex_upper(title_id as nat);
    let dir = kind_dir_name(kind);
    let title = title_dir(root, title_id);
    lemma_hex_upper_value(title_id as nat);
    lemma_kind_names_round_trip(kind);
    assert forall|i: int| 0 <= i < hex.len() implies hex[i] != '/' by {
        assert(hex_digit_value(hex[i]).is_some());
    }
    assert(has_no_slash(dir));
    assert(title.len() > 0 && title.last() == hex.last());
    assert(hex_digit_value(hex[hex.len() - 1]).is_some());
    lemma_joined_last_component(root, hex);
    lemma_joined_last_component(title, dir);
}

/// The place of the last `/` among the first `end` characters of a path.
fn last_slash(path: &str, end: usize) -> (r: Option<usize>)
    requires
        end <= path@.len(),
    ensures
        match r {
            Some(k) => k < end && path@[k as int] == '/' && has_no_slash(
                path@.subrange(k + 1, end as int),
            ),
            None => has_no_slash(path@.subrange(0, end as int)),
        },
{
    let mut i: usize = end;
    while i > 0
        invariant
            i <= end <= path@.len(),
            has_no_slash(path@.subrange(i as int, end as int)),
        decreases i,
    {
        if path.get_char(i - 1) == '/' {
            return Some(i - 1);
        }
        proof {
            let tail = path@.subrange(i - 1, end as int);
            assert forall|j: int| 0 <= j < tail.len() implies tail[j] != '/' by {
                if j > 0 {
                    assert(tail[j] == path@.subrange(i as int, end as int)[j - 1]);
                }
            }
        }
        i -= 1;
    }
    None
}

/// Reads the title and the kind back from the directory of a container.
pub fn locate_container(path: &str) -> (r: Option<(u64, Container)>)
    ensures
        r == located(path@),
{
    let n: usize = path.unicode_len();
    let k = match last_slash(path, n) {
        Some(k) => k,
        None => {
            proof {
                assert(path@.subrange(0, n as int) =~= path@);
                lemma_single_component(path@);
                assert(unsigned_part(Seq::<char>::empty()).len() == 0);
            }
            return None;
        },
    };
    let name = path.substring_char(k + 1, n);
    let parent = path.substring_char(0, k);
    proof {
        lemma_split_at_last_slash(path@, k as int);
    }
    let title = match last_slash(parent, k) {
        Some(j) => {
            proof {
                lemma_split_at_last_slash(parent@, j as int);
            }
            parent.substring_char(j + 1, k)
        },
        None => {
            proof {
                assert(parent@.subrange(0, k as int) =~= parent@);
                lemma_single_component(parent@);
            }
            parent
        },
    };
    match (parse_title_id(title), Container::from_str(name)) {
        (Some(id), Some(kind)) => Some((id, kind)),
        _ => None,
    }
}

} // verus!
