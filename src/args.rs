use vstd::prelude::*;
use crate::text::{owned, joined, same_text};

verus! {

/// Directory that holds the model and the vocabulary unless `--work_dir` says otherwise.
pub const DEFAULT_WORK_DIR: &'static str = "work";

/// Input file unless `--test_data` says otherwise.
pub const DEFAULT_TEST_DATA: &'static str = "test/input.txt";

/// Output file unless `--test_output` says otherwise.
pub const DEFAULT_TEST_OUTPUT: &'static str = "pred.txt";

/// The run's configuration, as read from the command line.
pub struct Args {
    pub work_dir: String,
    pub test_data: String,
    pub test_output: String,
    pub time: bool,
    pub torchscript: bool,
    /// Arguments that were not recognised, in the order they came.
    pub unknown: Vec<String>,
}

/// What an `Args` holds, as plain sequences.
pub struct ArgsModel {
    pub work_dir: Seq<char>,
    pub test_data: Seq<char>,
    pub test_output: Seq<char>,
    pub time: bool,
    pub torchscript: bool,
    pub unknown: Seq<Seq<char>>,
}

impl View for Args {
    type V = ArgsModel;

    open spec fn view(&self) -> ArgsModel {
        ArgsModel {
            work_dir: self.work_dir@,
            test_data: self.test_data@,
            test_output: self.test_output@,
            time: self.time,
            torchscript: self.torchscript,
            unknown: self.unknown.deep_view(),
        }
    }
}

/// The configuration before any argument is read.
pub open spec fn default_model() -> ArgsModel {
    ArgsModel {
        work_dir: DEFAULT_WORK_DIR@,
        test_data: DEFAULT_TEST_DATA@,
        test_output: DEFAULT_TEST_OUTPUT@,
        time: false,
        torchscript: false,
        unknown: Seq::empty(),
    }
}

/// Reads `args` from position `i` on into `m`. An option that takes a value and
/// stands last is skipped; anything unrecognised is recorded and skipped.
pub open spec fn parse_from(args: Seq<Seq<char>>, i: int, m: ArgsModel) -> ArgsModel
    decreases args.len() - i,
{
    if i < 0 || i >= args.len() {
        m
    } else if args[i] == "--work_dir"@ {
        if i + 1 < args.len() {
            parse_from(args, i + 2, ArgsModel { work_dir: args[i + 1], ..m })
        } else {
            parse_from(args, i + 1, m)
        }
    } else if args[i] == "--test_data"@ {
        if i + 1 < args.len() {
            parse_from(args, i + 2, ArgsModel { test_data: args[i + 1], ..m })
        } else {
            parse_from(args, i + 1, m)
        }
    } else if args[i] == "--test_output"@ {
        if i + 1 < args.len() {
            parse_from(args, i + 2, ArgsModel { test_output: args[i + 1], ..m })
        } else {
            parse_from(args, i + 1, m)
        }
    } else if args[i] == "--time"@ {
        parse_from(args, i + 1, ArgsModel { time: true, ..m })
    } else if args[i] == "--torchscript"@ {
        parse_from(args, i + 1, ArgsModel { torchscript: true, ..m })
    } else {
        parse_from(args, i + 1, ArgsModel { unknown: m.unknown.push(args[i]), ..m })
    }
}

/// The configuration that a full command line (program name first) gives.
pub open spec fn parsed(args: Seq<Seq<char>>) -> ArgsModel {
    parse_from(args, 1, default_model())
}

/// Reads the command line `args`, whose first entry is the program's name.
pub fn parse_args(args: &Vec<String>) -> (r: Args)
    ensures
        r@ == parsed(args.deep_view()),
{
    let ghost dv = args.deep_view();
    let mut work_dir = owned(DEFAULT_WORK_DIR);
    let mut test_data = owned(DEFAULT_TEST_DATA);
    let mut test_output = owned(DEFAULT_TEST_OUTPUT);
    let mut time = false;
    let mut torchscript = false;
    let mut unknown: Vec<String> = Vec::new();
    let n = args.len();
    let mut i: usize = 1;
    proof {
        assert(unknown.deep_view() =~= Seq::<Seq<char>>::empty());
    }
    while i < n
        invariant
            n == args.len(),
            dv == args.deep_view(),
            1 <= i <= n + 1,
            parsed(dv) == parse_from(
                dv,
                i as int,
                ArgsModel {
                    work_dir: work_dir@,
                    test_data: test_data@,
                    test_output: test_output@,
                    time,
                    torchscript,
                    unknown: unknown.deep_view(),
                },
            ),
        decreases n + 1 - i,
    {
        let a = args[i].as_str();
        assert(dv[i as int] == a@);
        if same_text(a, "--work_dir") {
            if i + 1 < n {
                assert(dv[i + 1] == args[i + 1 as int]@);
                work_dir = args[i + 1].clone();
                i = i + 2;
            } else {
                i = i + 1;
            }
        } else if same_text(a, "--test_data") {
            if i + 1 < n {
                assert(dv[i + 1] == args[i + 1 as int]@);
                test_data = args[i + 1].clone();
                i = i + 2;
            } else {
                i = i + 1;
            }
        } else if same_text(a, "--test_output") {
            if i + 1 < n {
                assert(dv[i + 1] == args[i + 1 as int]@);
                test_output = args[i + 1].clone();
                i = i + 2;
            } else {
                i = i + 1;
            }
        } else if same_text(a, "--time") {
            time = true;
            i = i + 1;
        } else if same_text(a, "--torchscript") {
            torchscript = true;
            i = i + 1;
        } else {
            let ghost before = unknown.deep_view();
            unknown.push(args[i].clone());
            proof {
                assert(unknown.deep_view() =~= before.push(dv[i as int]));
            }
            i = i + 1;
        }
    }
    Args { work_dir, test_data, test_output, time, torchscript, unknown }
}

impl Args {
    /// Where the model file lies: in the work directory, under the name of the
    /// scripted or the plain export.
    pub fn model_path(&self) -> (r: String)
        ensures
            r@ == self.work_dir@ + (if self.torchscript {
                "/character_transformer_script.pt"@
            } else {
                "/character_transformer.pt"@
            }),
    {
        if self.torchscript {
            joined(self.work_dir.as_str(), "/character_transformer_script.pt")
        } else {
            joined(self.work_dir.as_str(), "/character_transformer.pt")
        }
    }

    /// Where the vocabulary file lies: in the work directory.
    pub fn vocab_path(&self) -> (r: String)
        ensures
            r@ == self.work_dir@ + "/char_to_index.json"@,
    {
        joined(self.work_dir.as_str(), "/char_to_index.json")
    }
}

} // verus!
