use geth_runner::console::{find_prompt, request_line, try_extract};

// A fixed fake worker: it echoes the command line, prints its answer,
// then prints the deterministic prompt "> ".
fn fake_worker_output(cmd: &[u8], answer: &[u8]) -> Vec<u8> {
    let mut out = Vec::new();
    out.extend_from_slice(cmd);
    out.push(b'\n');
    out.extend_from_slice(answer);
    out.push(b'\n');
    out.extend_from_slice(b"> ");
    out
}

fn contains(haystack: &[u8], needle: &[u8]) -> bool {
    !needle.is_empty() && haystack.windows(needle.len()).any(|w| w == needle)
}

#[test]
fn response_is_free_of_prompt_and_echo() {
    let cmd = b"eth.accounts[0]".to_vec();
    let buf = fake_worker_output(&cmd, b"\"0xDeadBeef\"");
    let text = try_extract(&cmd, &buf).expect("prompt is present");
    assert_eq!(text, b"\"0xDeadBeef\"".to_vec());
    assert!(!contains(&text, b"> "), "prompt fragment left in response");
    assert!(!contains(&text, &cmd), "echoed command left in response");
}

#[test]
fn response_without_echo_is_returned_whole() {
    let cmd = b"admin.peers".to_vec();
    let mut buf = b"[]\n".to_vec();
    buf.extend_from_slice(b"> ");
    assert_eq!(try_extract(&cmd, &buf), Some(b"[]".to_vec()));
}

#[test]
fn incomplete_output_yields_nothing_yet() {
    let cmd = b"miner.start()".to_vec();
    assert_eq!(try_extract(&cmd, &b"".to_vec()), None);
    assert_eq!(try_extract(&cmd, &b"miner.start()\nnull\n".to_vec()), None);
    // A lone '>' without the following blank is not yet a prompt.
    assert_eq!(try_extract(&cmd, &b"miner.start()\nnull\n>".to_vec()), None);
}

#[test]
fn extraction_stops_at_the_first_prompt() {
    let cmd = b"x".to_vec();
    let buf = b"x\nfirst\n> second\n> ".to_vec();
    assert_eq!(try_extract(&cmd, &buf), Some(b"first".to_vec()));
}

#[test]
fn banner_text_is_everything_before_the_first_prompt() {
    // Draining the startup banner is the same primitive with an empty
    // command: the banner text comes back, prompt stripped.
    let banner = b"Welcome to the console!\nversion 1.2.3\n> ".to_vec();
    assert_eq!(find_prompt(&banner), Some(banner.len() - 2));
    let text = try_extract(&b"".to_vec(), &banner).unwrap();
    assert_eq!(text, b"Welcome to the console!\nversion 1.2.3".to_vec());
}

#[test]
fn request_line_appends_one_line_feed() {
    assert_eq!(request_line(&b"admin.peers".to_vec()), b"admin.peers\n".to_vec());
    assert_eq!(request_line(&b"".to_vec()), b"\n".to_vec());
}
