use fuse::encoding::{base64_decode, base64_encode};

fn spelled_out(b: &[u8]) -> String {
    fn ch(n: u32) -> char {
        match n {
            0..=25 => char::from_u32(n + 65).unwrap(),
            26..=51 => char::from_u32(n - 26 + 97).unwrap(),
            52..=61 => char::from_u32(n - 52 + 48).unwrap(),
            62 => '+',
            _ => '/',
        }
    }
    let mut out = String::new();
    for g in b.chunks(3) {
        let b0 = g[0] as u32;
        out.push(ch(b0 / 4));
        match g.len() {
            1 => {
                out.push(ch((b0 % 4) * 16));
                out.push_str("==");
            }
            2 => {
                let b1 = g[1] as u32;
                out.push(ch((b0 % 4) * 16 + b1 / 16));
                out.push(ch((b1 % 16) * 4));
                out.push('=');
            }
            _ => {
                let (b1, b2) = (g[1] as u32, g[2] as u32);
                out.push(ch((b0 % 4) * 16 + b1 / 16));
                out.push(ch((b1 % 16) * 4 + b2 / 64));
                out.push(ch(b2 % 64));
            }
        }
    }
    out
}

#[test]
fn base64_known_vectors() {
    for (plain, coded) in [("", ""), ("f", "Zg=="), ("fo", "Zm8="), ("foo", "Zm9v"), ("foobar", "Zm9vYmFy")] {
        assert_eq!(base64_encode(plain.as_bytes()), coded);
        assert_eq!(base64_decode(coded).unwrap(), plain.as_bytes());
    }
}

#[test]
fn base64_encoding_is_the_spelled_out_grouping() {
    let mut x: u32 = 12345;
    for len in 0..200usize {
        let bytes: Vec<u8> = (0..len)
            .map(|_| {
                x = x.wrapping_mul(1103515245).wrapping_add(12345);
                (x >> 16) as u8
            })
            .collect();
        let text = base64_encode(&bytes);
        assert_eq!(text, spelled_out(&bytes));
        assert_eq!(base64_decode(&text).unwrap(), bytes);
    }
}
