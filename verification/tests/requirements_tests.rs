use native_bridge::requirements::{requirements_start, requirements_step, ReqCheckState,
    ToolProbe};

fn run_check(probes: Vec<ToolProbe>) -> (String, usize) {
    // drives the state machine as the application would, recording how
    // many tool invocations were needed
    let mut state = requirements_start();
    let mut used = 0usize;
    let mut queue = probes.into_iter();
    loop {
        match state {
            ReqCheckState::Done(msg) => return (msg, used),
            _ => {
                let probe = queue.next().expect("the check asked for one probe too many");
                used += 1;
                state = requirements_step(&state, &probe);
            }
        }
    }
}

fn out(s: &str) -> ToolProbe {
    ToolProbe::Output(s.as_bytes().to_vec())
}

#[test]
fn both_banners_give_success() {
    let (msg, used) = run_check(vec![out("Python 3.11.4\n"), out("git version 2.40.1\n")]);
    assert_eq!(msg, "success");
    assert_eq!(used, 2);
}

#[test]
fn failed_first_probe_skips_the_second_tool() {
    let (msg, used) = run_check(vec![ToolProbe::Failed, out("git version 2.40.1\n")]);
    assert_eq!(msg, "Python is not installed, or not loadable");
    assert_eq!(used, 1, "the second tool must never be invoked");
}

#[test]
fn wrong_first_banner_skips_the_second_tool() {
    let (msg, used) = run_check(vec![out("Pithon 3\n"), out("git version 2.40.1\n")]);
    assert_eq!(msg, "Python is not installed");
    assert_eq!(used, 1, "the second tool must never be invoked");
}

#[test]
fn failed_second_probe_names_git() {
    let (msg, used) = run_check(vec![out("Python 3.11.4\n"), ToolProbe::Failed]);
    assert_eq!(msg, "Git is not installed, or not loadable");
    assert_eq!(used, 2);
}

#[test]
fn wrong_second_banner_names_git() {
    let (msg, _) = run_check(vec![out("Python 3.11.4\n"), out("got version 2\n")]);
    assert_eq!(msg, "Git is not installed");
}

#[test]
fn banner_must_be_a_prefix() {
    let (msg, _) = run_check(vec![out("welcome to Python 3\n"), out("git version 2\n")]);
    assert_eq!(msg, "Python is not installed");
}

#[test]
fn empty_output_misses_the_banner() {
    let (msg, _) = run_check(vec![out("")]);
    assert_eq!(msg, "Python is not installed");
}
