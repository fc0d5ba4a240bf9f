use toaster::color::ColorState;
use toaster::exchange::replay;

const GREETING: &[u8] = b"GTP_4.2 SRV\r\n";

fn peer(reads: &[&str]) -> Vec<String> {
    reads.iter().map(|text| text.to_string()).collect()
}

fn served(color: ColorState) -> Vec<u8> {
    let mut bytes = b"GTP_4.2 SRV\r\ntrust_me_bro\r\n".to_vec();
    bytes.extend(color.to_bytes());
    bytes
}

#[test]
fn the_rightful_client_is_sent_greeting_acknowledgement_and_color() {
    let color = ColorState::new(0, 128, 255);
    let sent = replay(&peer(&["GTP_4.2 CLT\r\n", "i_am_a_toaster\r\n"]), color);
    let mut expected = b"GTP_4.2 SRV\r\n".to_vec();
    expected.extend(b"trust_me_bro\r\n");
    expected.extend([0u8, 128, 255]);
    assert_eq!(sent, expected);
    assert_eq!(sent.len(), 13 + 14 + 3);
}

#[test]
fn the_client_with_a_wrong_greeting_is_sent_the_greeting_only() {
    let color = ColorState::default();
    assert_eq!(replay(&peer(&["GTP_4.2 SRV\r\n", "i_am_a_toaster\r\n"]), color), GREETING);
    assert_eq!(replay(&peer(&["hello\r\ni_am_a_toaster\r\n"]), color), GREETING);
    assert_eq!(replay(&peer(&["\r\nGTP_4.2 CLT\r\ni_am_a_toaster\r\n"]), color), GREETING);
    assert_eq!(replay(&peer(&["i_am_a_toaster\r\n", "GTP_4.2 CLT\r\n"]), color), GREETING);
}

#[test]
fn the_client_with_a_wrong_credential_is_sent_the_greeting_only() {
    let color = ColorState::default();
    assert_eq!(replay(&peer(&["GTP_4.2 CLT\r\n", "i_am_a_kettle\r\n"]), color), GREETING);
    assert_eq!(replay(&peer(&["GTP_4.2 CLT\r\n\r\ni_am_a_toaster\r\n"]), color), GREETING);
    assert_eq!(replay(&peer(&["GTP_4.2 CLT\r\nGTP_4.2 CLT\r\n"]), color), GREETING);
}

#[test]
fn the_silent_client_is_sent_the_greeting_only() {
    let color = ColorState::default();
    assert_eq!(replay(&peer(&[]), color), GREETING);
    assert_eq!(replay(&peer(&[""]), color), GREETING);
    assert_eq!(replay(&peer(&["GTP_4.2 CLT"]), color), GREETING);
    assert_eq!(replay(&peer(&["GTP_4.2 CLT\r\n"]), color), GREETING);
    assert_eq!(replay(&peer(&["GTP_4.2 CLT\r\n", "i_am_a_toaster"]), color), GREETING);
}

#[test]
fn every_cut_into_two_reads_serves_the_rightful_client() {
    let color = ColorState::new(9, 8, 7);
    let text = "GTP_4.2 CLT\r\ni_am_a_toaster\r\n";
    for cut in 0..=text.len() {
        let sent = replay(&peer(&[&text[..cut], &text[cut..]]), color);
        assert_eq!(sent, served(color), "cut at {}", cut);
    }
    assert_eq!(replay(&peer(&[text]), color), served(color));
}

#[test]
fn a_line_cut_into_three_reads_is_given_up() {
    let color = ColorState::default();
    assert_eq!(replay(&peer(&["GTP", "_4.2 ", "CLT\r\ni_am_a_toaster\r\n"]), color), GREETING);
    let reads = peer(&["GTP_4.2 CLT\r\n", "i_", "am_a_", "toaster\r\n"]);
    assert_eq!(replay(&reads, color), GREETING);
    let reads = peer(&["GTP_4.2 CLT\r\ni_", "am_a_", "toaster\r\n"]);
    assert_eq!(replay(&reads, color), served(color));
    let reads = peer(&["GTP_4.2", " CLT\r\ni_am", "_a_toaster\r\n"]);
    assert_eq!(replay(&reads, color), served(color));
    let reads = peer(&["GTP_4.2", " CLT\r\n", "i_am", "_a_toaster\r\n"]);
    assert_eq!(replay(&reads, color), served(color));
}

#[test]
fn what_comes_after_the_credential_changes_nothing() {
    let color = ColorState::new(1, 2, 3);
    let reads = peer(&["GTP_4.2 CLT\r\ni_am_a_toaster\r\nand more\r\n", "and more"]);
    assert_eq!(replay(&reads, color), served(color));
}

#[test]
fn the_snapshot_is_the_color_given() {
    let reads = peer(&["GTP_4.2 CLT\r\ni_am_a_toaster\r\n"]);
    for color in [ColorState::default(), ColorState::new(0, 0, 0), ColorState::new(13, 10, 0)] {
        let sent = replay(&reads, color);
        assert_eq!(sent[sent.len() - 3..], color.to_bytes());
    }
}
