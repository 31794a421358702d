//! What a command line front end computes before it calls the client.

use vstd::prelude::*;
use vstd::string::*;

verus! {

/// The complaint about an argument that holds no `=`.
pub open spec fn no_separator_message(s: Seq<char>) -> Seq<char> {
    "invalid KEY=value: no `=` found in `"@ + s + "`"@
}

/// Parses a single key-value pair of the form `KEY=value`.  The key ends at
/// the first `=`; the value is everything behind it.
pub fn parse_key_val(s: &str) -> (r: Result<(String, String), String>)
    ensures
        s@.contains('=') ==> (r matches Ok(pair) && !pair.0@.contains('=') && pair.0@ + seq!['=']
            + pair.1@ == s@),
        !s@.contains('=') ==> (r matches Err(message) && message@ == no_separator_message(s@)),
{
    let n: usize = s.unicode_len();
    let mut pos: usize = 0;
    while pos < n
        invariant
            n == s@.len(),
            pos <= n,
            forall|j: int| 0 <= j < pos ==> s@[j] != '=',
        decreases n - pos,
    {
        if s.get_char(pos) == '=' {
            let key = String::from_str(s.substring_char(0, pos));
            let value = String::from_str(s.substring_char(pos + 1, n));
            assert(key@ + seq!['='] + value@ =~= s@);
            assert(s@.contains('='));
            return Ok((key, value));
        }
        pos = pos + 1;
    }
    let mut message = String::from_str("invalid KEY=value: no `=` found in `");
    message.append(s);
    message.append("`");
    Err(message)
}

/// The name of the credential file of `instance`, or of the default
/// instance.
pub open spec fn config_file_name(instance: Option<Seq<char>>) -> Seq<char> {
    match instance {
        Some(i) => "apiclient-"@ + i + ".yaml"@,
        None => "apiclient.yaml"@,
    }
}

/// Where the credential file of `instance` lies below the user's
/// configuration directory: the segments of its path, in order.
pub fn config_yml_file(instance: Option<String>) -> (r: Vec<String>)
    ensures
        r@.len() == 2,
        r@[0]@ == "velociraptor"@,
        instance matches Some(i) ==> r@[1]@ == config_file_name(Some(i@)),
        instance is None ==> r@[1]@ == config_file_name(None),
{
    let mut segments: Vec<String> = Vec::new();
    segments.push(String::from_str("velociraptor"));
    match instance {
        Some(i) => {
            let mut name = String::from_str("apiclient-");
            name.append(i.as_str());
            name.append(".yaml");
            segments.push(name);
        },
        None => {
            segments.push(String::from_str("apiclient.yaml"));
        },
    }
    segments
}

/// Where the credentials come from.
pub enum ConfigSource<P> {
    /// The file at a path given by the operator.
    File(P),
    /// The file of an instance, or of the default instance, below the user's
    /// configuration directory.
    Instance(Option<String>),
}

/// The complaint about a path and an instance given together.
pub open spec fn both_given_message() -> Seq<char> {
    "can't use config and instance simultaneously"@
}

/// Decides where the credentials come from: the given file, else the named
/// instance, else the default instance.  A file and an instance together are
/// refused.
pub fn config_source<P>(config: Option<P>, instance: Option<String>) -> (r: Result<
    ConfigSource<P>,
    String,
>)
    ensures
        config is Some && instance is Some ==> (r matches Err(message) && message@
            == both_given_message()),
        config is Some && instance is None ==> r == Ok::<ConfigSource<P>, String>(
            ConfigSource::File(config->Some_0),
        ),
        config is None ==> r == Ok::<ConfigSource<P>, String>(ConfigSource::Instance(instance)),
{
    match (config, instance) {
        (Some(path), None) => Ok(ConfigSource::File(path)),
        (None, instance) => Ok(ConfigSource::Instance(instance)),
        _ => Err(String::from_str("can't use config and instance simultaneously")),
    }
}

/// What one row of a shell artifact reports.
#[derive(Debug)]
pub struct ShellResult {
    pub stdout: String,
    pub stderr: String,
    pub returncode: i32,
    pub finished: bool,
}

/// The texts of `parts`, joined in order.
pub open spec fn joined(parts: Seq<Seq<char>>) -> Seq<char>
    decreases parts.len(),
{
    if parts.len() == 0 {
        Seq::empty()
    } else {
        joined(parts.drop_last()) + parts.last()
    }
}

/// What the rows wrote to standard output, row by row.
pub open spec fn stdouts(rows: Seq<ShellResult>) -> Seq<Seq<char>> {
    Seq::new(rows.len(), |i: int| rows[i].stdout@)
}

/// What the rows wrote to standard error, row by row.
pub open spec fn stderrs(rows: Seq<ShellResult>) -> Seq<Seq<char>> {
    Seq::new(rows.len(), |i: int| rows[i].stderr@)
}

impl ShellResult {
    /// The rows of a shell artifact as one: everything written to standard
    /// output, and everything written to standard error, in the order of the
    /// rows.  Return code and completion are not carried over.
    pub fn combine(rows: &Vec<ShellResult>) -> (r: ShellResult)
        ensures
            r.stdout@ == joined(stdouts(rows@)),
            r.stderr@ == joined(stderrs(rows@)),
            r.returncode == 0,
            !r.finished,
    {
        let mut stdout = String::new();
        let mut stderr = String::new();
        let mut i: usize = 0;
        assert(stdouts(rows@).take(0) =~= Seq::empty());
        assert(stderrs(rows@).take(0) =~= Seq::empty());
        while i < rows.len()
            invariant
                i <= rows@.len(),
                stdout@ == joined(stdouts(rows@).take(i as int)),
                stderr@ == joined(stderrs(rows@).take(i as int)),
            decreases rows@.len() - i,
        {
            proof {
                assert(stdouts(rows@).take(i + 1).drop_last() =~= stdouts(rows@).take(i as int));
                assert(stderrs(rows@).take(i + 1).drop_last() =~= stderrs(rows@).take(i as int));
            }
            stdout.append(rows[i].stdout.as_str());
            stderr.append(rows[i].stderr.as_str());
            i = i + 1;
        }
        assert(stdouts(rows@).take(i as int) =~= stdouts(rows@));
        assert(stderrs(rows@).take(i as int) =~= stderrs(rows@));
        ShellResult { stdout, stderr, returncode: 0, finished: false }
    }
}

} // verus!
