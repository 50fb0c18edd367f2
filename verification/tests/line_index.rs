use ghass::line_index::LineIndex;

const SAMPLE: &str = "\
name: CI

on: push

jobs:
  build:
    runs-on: ubuntu-latest
    steps:
      - name: Checkout
        uses: actions/checkout@v4
      - name: Run
        run: echo hi
  deploy:
    runs-on: ubuntu-latest
    needs: build
    steps:
      - uses: actions/checkout@v4
      - run: echo deploy
";

#[test]
fn finds_job_lines() {
    let idx = LineIndex::build(SAMPLE);

    assert_eq!(idx.job_line("build"), Some(6));
    assert_eq!(idx.job_line("deploy"), Some(13));
}

#[test]
fn finds_step_lines_in_document_order() {
    let idx = LineIndex::build(SAMPLE);

    assert_eq!(idx.step_line("build", 0), Some(9));
    assert_eq!(idx.step_line("build", 1), Some(11));
    assert_eq!(idx.step_line("deploy", 0), Some(17));
    assert_eq!(idx.step_line("deploy", 1), Some(18));
}

#[test]
fn out_of_range_step_index_returns_none() {
    let idx = LineIndex::build(SAMPLE);

    assert_eq!(idx.step_line("build", 99), None);
}

#[test]
fn unknown_job_returns_none() {
    let idx = LineIndex::build(SAMPLE);

    assert_eq!(idx.job_line("nonexistent"), None);
    assert_eq!(idx.step_line("nonexistent", 0), None);
}

#[test]
fn workflow_without_jobs_block_yields_empty_index() {
    let idx = LineIndex::build("name: CI\non: push\n");

    assert_eq!(idx.job_line("build"), None);
}

#[test]
fn job_without_steps_key_yields_no_step_lines() {
    let idx = LineIndex::build("jobs:\n  call:\n    uses: org/repo/.github/workflows/reusable.yml@main\n");

    assert_eq!(idx.job_line("call"), Some(2));
    assert_eq!(idx.step_line("call", 0), None);
}

#[test]
fn empty_steps_sequence_yields_no_step_lines() {
    let idx = LineIndex::build("jobs:\n  build:\n    runs-on: ubuntu-latest\n    steps: []\n");

    assert_eq!(idx.step_line("build", 0), None);
}

#[test]
fn multiline_run_block_does_not_break_step_counting() {
    let yaml = "\
jobs:
  build:
    runs-on: ubuntu-latest
    steps:
      - name: Multi
        run: |
          echo one
          echo two
      - name: After
        run: echo three
";
    let idx = LineIndex::build(yaml);

    assert_eq!(idx.step_line("build", 0), Some(5));
    assert_eq!(idx.step_line("build", 1), Some(9));
}

#[test]
fn two_space_and_four_space_indent_styles_both_work() {
    let four_space = "\
jobs:
    build:
        runs-on: ubuntu-latest
        steps:
            - name: A
              run: echo a
";
    let idx = LineIndex::build(four_space);

    assert_eq!(idx.job_line("build"), Some(2));
    assert_eq!(idx.step_line("build", 0), Some(5));
}
