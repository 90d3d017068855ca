use llama_engine::generate::Generation;

fn run(prompt: &[u32], bos: u32, eos: u32, max_len: usize, samples: &[u32]) -> (Vec<u32>, usize) {
    let mut run = Generation::start(prompt, bos, eos, max_len);
    let mut steps: usize = 0;
    while !run.is_done() {
        run.accept(samples[steps % samples.len()]);
        steps += 1;
    }
    (run.into_tokens(), steps)
}

#[test]
fn generation_starts_with_prompt_and_bos() {
    let run = Generation::start(&[5, 6, 7], 1, 2, 10);
    assert_eq!(run.tokens(), &vec![5, 6, 7, 1]);
    assert_eq!(run.input(), vec![5, 6, 7]);
    assert_eq!(run.remaining(), 10);
    assert!(!run.is_done());
}

#[test]
fn generation_feeds_the_last_token() {
    let mut run = Generation::start(&[5, 6, 7], 1, 2, 10);
    run.accept(40);
    assert_eq!(run.input(), vec![40]);
    assert_eq!(run.tokens(), &vec![5, 6, 7, 1, 40]);
    run.accept(41);
    assert_eq!(run.input(), vec![41]);
    assert_eq!(run.remaining(), 8);
}

#[test]
fn generation_stops_at_max_len() {
    let (tokens, steps) = run(&[5, 6], 1, 2, 4, &[9]);
    assert_eq!(steps, 4);
    assert_eq!(tokens, vec![5, 6, 1, 9, 9, 9, 9]);
}

#[test]
fn generation_stops_before_the_end_token() {
    let (tokens, steps) = run(&[5, 6], 1, 2, 100, &[9, 8, 2, 7]);
    assert_eq!(steps, 3);
    assert_eq!(tokens, vec![5, 6, 1, 9, 8]);
    assert!(!tokens.contains(&2));
}

#[test]
fn generation_with_no_steps() {
    let run = Generation::start(&[5], 1, 2, 0);
    assert!(run.is_done());
    assert_eq!(run.into_tokens(), vec![5, 1]);
}

#[test]
fn generation_that_ends_at_once() {
    let (tokens, steps) = run(&[5], 1, 2, 7, &[2]);
    assert_eq!(steps, 1);
    assert_eq!(tokens, vec![5, 1]);
}

#[test]
fn generation_keeps_a_prompt_that_holds_the_end_token() {
    let (tokens, steps) = run(&[2, 5], 1, 2, 2, &[3]);
    assert_eq!(steps, 2);
    assert_eq!(tokens, vec![2, 5, 1, 3, 3]);
}

#[test]
fn generation_over_an_empty_prompt() {
    let run = Generation::start(&[], 1, 2, 3);
    assert_eq!(run.tokens(), &vec![1]);
    assert_eq!(run.input(), Vec::<u32>::new());
}
