//! Process names: how the name of a window's owner is taken from the list
//! of running processes.

use vstd::prelude::*;
use vstd::string::*;

verus! {

/// One running process, as the system's snapshot describes it.
#[derive(Debug, Clone)]
pub struct ProcessEntry {
    pub process_id: u32,
    /// The file name of the executable, as read from the fixed-size field:
    /// NUL characters may follow it.
    pub exe_file: String,
}

/// `s` without the NUL characters at its end.
pub open spec fn without_trailing_nuls(s: Seq<char>) -> Seq<char>
    decreases s.len(),
{
    if s.len() > 0 && s.last() == '\0' {
        without_trailing_nuls(s.drop_last())
    } else {
        s
    }
}

/// Where the last dot of `s` stands, or -1 where `s` has none.
pub open spec fn last_dot(s: Seq<char>) -> int
    decreases s.len(),
{
    if s.len() == 0 {
        -1
    } else if s.last() == '.' {
        s.len() - 1
    } else {
        last_dot(s.drop_last())
    }
}

/// The name of a process, from the file name of its executable: trailing
/// NUL characters are dropped, then the last dot and what follows it. A
/// name without a dot stays whole.
pub open spec fn stem(exe_file: Seq<char>) -> Seq<char> {
    let name = without_trailing_nuls(exe_file);
    if last_dot(name) >= 0 {
        name.subrange(0, last_dot(name))
    } else {
        name
    }
}

/// `i` is where the first process with the id `process_id` stands.
pub open spec fn is_first_match(entries: Seq<ProcessEntry>, process_id: u32, i: int) -> bool {
    &&& 0 <= i < entries.len()
    &&& entries[i].process_id == process_id
    &&& forall|j: int| 0 <= j < i ==> (#[trigger] entries[j]).process_id != process_id
}

/// What the last dot is: a dot with none after it.
pub proof fn lemma_last_dot(s: Seq<char>)
    ensures
        -1 <= last_dot(s) < s.len(),
        last_dot(s) >= 0 ==> s[last_dot(s)] == '.',
        forall|j: int| last_dot(s) < j < s.len() ==> s[j] != '.',
    decreases s.len(),
{
    if s.len() > 0 && s.last() != '.' {
        lemma_last_dot(s.drop_last());
        assert forall|j: int| last_dot(s) < j < s.len() implies s[j] != '.' by {
            if j < s.len() - 1 {
                assert(s[j] == s.drop_last()[j]);
            }
        }
    }
}

/// What dropping trailing NUL characters leaves: the longest beginning of
/// the text that does not end in one.
pub proof fn lemma_without_trailing_nuls(s: Seq<char>)
    ensures
        without_trailing_nuls(s).len() <= s.len(),
        without_trailing_nuls(s) == s.subrange(0, without_trailing_nuls(s).len() as int),
        without_trailing_nuls(s).len() > 0 ==> without_trailing_nuls(s).last() != '\0',
        forall|j: int| without_trailing_nuls(s).len() <= j < s.len() ==> s[j] == '\0',
    decreases s.len(),
{
    if s.len() > 0 && s.last() == '\0' {
        let front = s.drop_last();
        lemma_without_trailing_nuls(front);
        let kept = without_trailing_nuls(front);
        assert(kept =~= s.subrange(0, kept.len() as int));
        assert forall|j: int| kept.len() <= j < s.len() implies s[j] == '\0' by {
            if j < s.len() - 1 {
                assert(s[j] == front[j]);
            }
        }
    } else {
        assert(s =~= s.subrange(0, s.len() as int));
    }
}

/// Takes the process name from the file name of an executable.
pub fn executable_stem(exe_file: &str) -> (name: String)
    ensures
        name@ == stem(exe_file@),
{
    let mut end = exe_file.unicode_len();
    assert(exe_file@.subrange(0, end as int) =~= exe_file@);
    while end > 0 && exe_file.get_char(end - 1) == '\0'
        invariant
            end <= exe_file@.len(),
            without_trailing_nuls(exe_file@) == without_trailing_nuls(
                exe_file@.subrange(0, end as int),
            ),
        decreases end,
    {
        proof {
            assert(exe_file@.subrange(0, end as int).drop_last() =~= exe_file@.subrange(
                0,
                end - 1,
            ));
        }
        end -= 1;
    }
    let ghost name = exe_file@.subrange(0, end as int);
    assert(without_trailing_nuls(exe_file@) == name);
    let mut i = end;
    assert(name.subrange(0, i as int) =~= name);
    while i > 0
        invariant
            i <= end,
            without_trailing_nuls(exe_file@) == name,
            end <= exe_file@.len(),
            name == exe_file@.subrange(0, end as int),
            last_dot(name) == last_dot(name.subrange(0, i as int)),
        decreases i,
    {
        proof {
            assert(name.subrange(0, i as int).drop_last() =~= name.subrange(0, i - 1));
            assert(name.subrange(0, i as int).last() == exe_file@[i - 1]);
        }
        if exe_file.get_char(i - 1) == '.' {
            assert(last_dot(name) == i - 1);
            assert(name.subrange(0, i - 1) =~= exe_file@.subrange(0, i - 1));
            return String::from_str(exe_file.substring_char(0, i - 1));
        }
        i -= 1;
    }
    assert(name.subrange(0, 0).len() == 0);
    String::from_str(exe_file.substring_char(0, end))
}

/// Finds the name of the process with the id `process_id`: the stem of the
/// executable of the first entry with that id.
pub fn find_process_name(entries: &Vec<ProcessEntry>, process_id: u32) -> (name: Option<String>)
    ensures
        match name {
            Some(text) => exists|i: int|
                #[trigger] is_first_match(entries@, process_id, i) && text@ == stem(
                    entries@[i].exe_file@,
                ),
            None => forall|i: int|
                0 <= i < entries@.len() ==> (#[trigger] entries@[i]).process_id != process_id,
        },
{
    let mut i: usize = 0;
    while i < entries.len()
        invariant
            i <= entries@.len(),
            forall|j: int| 0 <= j < i ==> (#[trigger] entries@[j]).process_id != process_id,
        decreases entries@.len() - i,
    {
        if entries[i].process_id == process_id {
            let name = executable_stem(entries[i].exe_file.as_str());
            assert(is_first_match(entries@, process_id, i as int));
            return Some(name);
        }
        i += 1;
    }
    None
}

} // verus!
