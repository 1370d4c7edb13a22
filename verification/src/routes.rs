//! What the routes answer: the status text of the index route, the list of
//! password names, the paths of password and backup files, and the text of
//! the 401 catcher.

use vstd::prelude::*;
use crate::text::decimal;
use crate::text::push_decimal;

verus! {

/// The answer to a request that failed the API key check.
pub fn unauthorized() -> (s: String)
    ensures
        s@ == "Unauthorized, invalid API key"@,
{
    String::from_str("Unauthorized, invalid API key")
}

/// A number on a line of its own.
pub open spec fn number_line(n: nat) -> Seq<char> {
    decimal(n) + "\n"@
}

/// The status text of the index route. `dir_stats` is `None` when the
/// user's directory could not be had; otherwise it holds the number of
/// passwords stored and the size of the directory, each `None` when it could
/// not be read. `key_count` is the number of API keys loaded, `None` when the
/// store could not be locked.
pub open spec fn index_text(dir_stats: Option<(Option<u64>, Option<u64>)>, key_count: Option<usize>) -> Seq<
    char,
> {
    let dir_part = match dir_stats {
        None => "Could not get user directory\n"@,
        Some((count, size)) => {
            let count_part = match count {
                Some(c) => number_line(c as nat),
                None => "Could not read user directory\n"@,
            };
            let size_part = match size {
                Some(z) => number_line(z as nat),
                None => "Could not read directory\n"@,
            };
            count_part + size_part
        },
    };
    let key_part = match key_count {
        Some(k) => number_line(k as nat),
        None => "Unable to access API keys\n"@,
    };
    "Server is running\n"@ + dir_part + key_part
}

fn push_number_line(s: &mut String, n: u64)
    ensures
        final(s)@ == old(s)@ + number_line(n as nat),
{
    push_decimal(s, n);
    s.append("\n");
}

/// The status text of the index route (see `index_text`).
pub fn index_message(dir_stats: Option<(Option<u64>, Option<u64>)>, key_count: Option<usize>) -> (msg:
    String)
    ensures
        msg@ == index_text(dir_stats, key_count),
{
    let mut msg = String::from_str("Server is running\n");
    match dir_stats {
        None => msg.append("Could not get user directory\n"),
        Some((count, size)) => {
            match count {
                Some(c) => push_number_line(&mut msg, c),
                None => msg.append("Could not read user directory\n"),
            }
            match size {
                Some(z) => push_number_line(&mut msg, z),
                None => msg.append("Could not read directory\n"),
            }
        },
    }
    match key_count {
        Some(k) => push_number_line(&mut msg, k as u64),
        None => msg.append("Unable to access API keys\n"),
    }
    msg
}

/// The index text reports the numbers it was given, each in decimal on a
/// line of its own: the password count on the line after "Server is
/// running", the directory size on the line after it, and the number of API
/// keys on the last line.
pub proof fn law_index_reports_numbers(
    count: Option<u64>,
    size: Option<u64>,
    key_count: Option<usize>,
)
    ensures
        ({
            let text = index_text(Some((count, size)), key_count);
            &&& count matches Some(c) ==> exists|rest: Seq<char>|
                text == "Server is running\n"@ + decimal(c as nat) + "\n"@ + rest
            &&& count matches Some(c) ==> (size matches Some(z) ==> exists|rest: Seq<char>|
                text == "Server is running\n"@ + decimal(c as nat) + "\n"@ + decimal(z as nat)
                    + "\n"@ + rest)
            &&& key_count matches Some(k) ==> exists|front: Seq<char>|
                text == front + decimal(k as nat) + "\n"@
        }),
{
    let text = index_text(Some((count, size)), key_count);
    let count_part = match count {
        Some(c) => number_line(c as nat),
        None => "Could not read user directory\n"@,
    };
    let size_part = match size {
        Some(z) => number_line(z as nat),
        None => "Could not read directory\n"@,
    };
    let key_part = match key_count {
        Some(k) => number_line(k as nat),
        None => "Unable to access API keys\n"@,
    };
    assert(text == "Server is running\n"@ + (count_part + size_part) + key_part);
    if let Some(c) = count {
        let rest = size_part + key_part;
        assert(text =~= "Server is running\n"@ + decimal(c as nat) + "\n"@ + rest);
        if let Some(z) = size {
            assert(text =~= "Server is running\n"@ + decimal(c as nat) + "\n"@ + decimal(z as nat)
                + "\n"@ + key_part);
        }
    }
    if let Some(k) = key_count {
        let front = "Server is running\n"@ + (count_part + size_part);
        assert(text =~= front + decimal(k as nat) + "\n"@);
    }
}

/// The names listed one after another: each name is preceded by a newline
/// byte unless nothing has been written yet.
pub open spec fn joined_names(names: Seq<Seq<u8>>) -> Seq<u8>
    decreases names.len(),
{
    if names.len() == 0 {
        Seq::empty()
    } else {
        let acc = joined_names(names.drop_last());
        (if acc.len() > 0 {
            acc.push(10u8)
        } else {
            acc
        }) + names.last()
    }
}

/// The names separated by newline bytes.
pub open spec fn separated(names: Seq<Seq<u8>>) -> Seq<u8>
    decreases names.len(),
{
    if names.len() == 0 {
        Seq::empty()
    } else if names.len() == 1 {
        names[0]
    } else {
        separated(names.drop_last()).push(10u8) + names.last()
    }
}

/// The answer of the password list route: the names of the stored
/// passwords (see `joined_names`).
pub fn join_file_names(names: &Vec<Vec<u8>>) -> (listing: Vec<u8>)
    ensures
        listing@ == joined_names(names@.map_values(|n: Vec<u8>| n@)),
{
    let ghost views = names@.map_values(|n: Vec<u8>| n@);
    let mut res: Vec<u8> = Vec::new();
    let mut i: usize = 0;
    while i < names.len()
        invariant
            i <= names@.len(),
            views == names@.map_values(|n: Vec<u8>| n@),
            res@ == joined_names(views.take(i as int)),
        decreases names@.len() - i,
    {
        let ghost before = res@;
        if res.len() > 0 {
            res.push(10u8);
        }
        let ghost mid = res@;
        res.extend_from_slice(names[i].as_slice());
        proof {
            assert(res@ =~= mid + views[i as int]);
            assert(views.take(i + 1).drop_last() =~= views.take(i as int));
        }
        i = i + 1;
    }
    assert(views.take(names@.len() as int) =~= views);
    res
}

/// When no name is empty, the listing is the names separated by newlines.
pub proof fn law_listing_separates_names(names: Seq<Seq<u8>>)
    requires
        forall|i: int| 0 <= i < names.len() ==> #[trigger] names[i].len() > 0,
    ensures
        joined_names(names) == separated(names),
        names.len() > 0 ==> joined_names(names).len() > 0,
    decreases names.len(),
{
    if names.len() > 0 {
        let init = names.drop_last();
        assert forall|i: int| 0 <= i < init.len() implies #[trigger] init[i].len() > 0 by {
            assert(init[i] == names[i]);
        }
        law_listing_separates_names(init);
        assert(names.last().len() > 0);
        if names.len() == 1 {
            assert(init.len() == 0);
            assert(joined_names(init) =~= Seq::<u8>::empty());
            assert(names.last() == names[0]);
            assert(Seq::<u8>::empty() + names[0] =~= names[0]);
        }
    }
}

/// `dir/name`.
pub open spec fn in_dir(dir: Seq<char>, name: Seq<char>) -> Seq<char> {
    dir + "/"@ + name
}

/// The file holding the password `id` in the user directory `dir`.
pub fn password_path(dir: &str, id: &str) -> (path: String)
    ensures
        path@ == in_dir(dir@, id@),
{
    let mut path = String::from_str(dir);
    path.append("/");
    path.append(id);
    path
}

/// The backup directory inside the user directory `dir`.
pub fn backup_dir_path(dir: &str) -> (path: String)
    ensures
        path@ == dir@ + "/backup/"@,
{
    let mut path = String::from_str(dir);
    path.append("/backup/");
    path
}

/// The backup copy of the password `id` of the user directory `dir`.
pub fn backup_file_path(dir: &str, id: &str) -> (path: String)
    ensures
        path@ == dir@ + "/backup/"@ + id@,
{
    let mut path = backup_dir_path(dir);
    path.append(id);
    path
}

} // verus!
