use vstd::prelude::*;

verus! {

/// The line reported for one name of a batch command: what the operation
/// gave, or why it failed.
pub open spec fn report_text(command: Seq<char>, name: Seq<char>, result: Result<String, String>) -> Seq<char> {
    match result {
        Ok(detail) => "pkg: "@ + command + ": "@ + name + ": "@ + detail@,
        Err(err) => "pkg: "@ + command + ": "@ + name + ": failed: "@ + err@,
    }
}

/// The line reported for one name of a batch command.
pub fn report_line(command: &str, name: &str, result: &Result<String, String>) -> (r: String)
    ensures
        r@ == report_text(command@, name@, *result),
{
    let head = "pkg: ".to_owned().concat(command).concat(": ").concat(name);
    let r = match result {
        Ok(detail) => head.concat(": ").concat(detail.as_str()),
        Err(err) => head.concat(": failed: ").concat(err.as_str()),
    };
    assert(r@ =~= report_text(command@, name@, *result));
    r
}

/// The lines reported for a batch: one per name, in the order of the names,
/// each from that name's own result; a failure is reported and the batch
/// goes on.
pub fn batch_report(command: &str, names: &Vec<String>, results: &Vec<Result<String, String>>) -> (r: Vec<String>)
    requires
        names@.len() == results@.len(),
    ensures
        r@.len() == names@.len(),
        forall|i: int| 0 <= i < r@.len() ==> #[trigger] r@[i]@ == report_text(command@, names@[i]@, results@[i]),
{
    let mut lines: Vec<String> = Vec::new();
    let mut i: usize = 0;
    while i < names.len()
        invariant
            names@.len() == results@.len(),
            0 <= i <= names@.len(),
            lines@.len() == i,
            forall|j: int| 0 <= j < i ==> #[trigger] lines@[j]@ == report_text(command@, names@[j]@, results@[j]),
        decreases names@.len() - i,
    {
        let line = report_line(command, names[i].as_str(), &results[i]);
        lines.push(line);
        i = i + 1;
    }
    lines
}

/// In a batch, what is reported for a name depends on that name's result
/// alone: a name that succeeds is reported as such wherever it stands and
/// whatever the other names gave.
pub proof fn lemma_batch_isolation(
    command: Seq<char>,
    names: Seq<String>,
    results: Seq<Result<String, String>>,
    other_names: Seq<String>,
    other_results: Seq<Result<String, String>>,
    i: int,
    j: int,
)
    requires
        0 <= i < names.len(),
        0 <= j < other_names.len(),
        names[i]@ == other_names[j]@,
        results[i] == other_results[j],
    ensures
        report_text(command, names[i]@, results[i]) == report_text(command, other_names[j]@, other_results[j]),
{
}

} // verus!
