use vstd::prelude::*;

verus! {

/// The command line of the process: the path of the configuration file.
pub struct Cli {
    pub config: String,
}

/// Whether one argument is the configuration-file flag, in its short or long
/// spelling.
pub open spec fn is_config_flag(a: Seq<char>) -> bool {
    a == "-c"@ || a == "--config"@
}

/// What the command line means: the value after the first configuration-file
/// flag, or nothing when the flag is absent or has no value after it.
pub open spec fn cli_spec(args: Seq<Seq<char>>) -> Option<Seq<char>>
    decreases args.len(),
{
    if args.len() == 0 {
        None
    } else if is_config_flag(args[0]) {
        if args.len() >= 2 {
            Some(args[1])
        } else {
            None
        }
    } else {
        cli_spec(args.drop_first())
    }
}

proof fn lemma_cli_spec_step(args: Seq<Seq<char>>, i: int)
    requires
        0 <= i < args.len(),
        !is_config_flag(args[i]),
    ensures
        cli_spec(args.skip(i)) == cli_spec(args.skip(i + 1)),
{
    assert(args.skip(i).drop_first() =~= args.skip(i + 1));
    assert(args.skip(i)[0] == args[i]);
}

/// Parse the process arguments (the program name already removed): the value
/// following the first `-c` or `--config` flag names the configuration file.
pub fn parse_cli(args: &Vec<String>) -> (r: Option<Cli>)
    ensures
        match r {
            Some(c) => cli_spec(args.deep_view()) == Some(c.config@),
            None => cli_spec(args.deep_view()) is None,
        },
{
    let short = String::from_str("-c");
    let long = String::from_str("--config");
    proof {
        reveal_strlit("-c");
        reveal_strlit("--config");
    }
    let ghost view: Seq<Seq<char>> = args.deep_view();
    proof {
        assert(view.skip(0) =~= view);
    }
    let n = args.len();
    let mut i: usize = 0;
    while i < n
        invariant
            n == args.len(),
            view == args.deep_view(),
            short@ == "-c"@,
            long@ == "--config"@,
            i <= n,
            cli_spec(view) == cli_spec(view.skip(i as int)),
        decreases n - i,
    {
        let a = &args[i];
        proof {
            assert(view[i as int] == a@);
        }
        if a.eq(&short) || a.eq(&long) {
            proof {
                assert(view.skip(i as int)[0] == view[i as int]);
            }
            if i + 1 < n {
                let value = args[i + 1].clone();
                proof {
                    assert(view.skip(i as int)[1] == view[i as int + 1]);
                }
                return Some(Cli { config: value });
            } else {
                proof {
                    assert(view.skip(i as int).len() == n - i);
                }
                return None;
            }
        }
        proof {
            lemma_cli_spec_step(view, i as int);
        }
        i = i + 1;
    }
    proof {
        assert(view.skip(n as int) =~= Seq::<Seq<char>>::empty());
    }
    None
}

} // verus!
