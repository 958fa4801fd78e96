use pond::signal::SampleCursor;

#[test]
fn cursor_interleaves_channels_and_wraps() {
    let mut c = SampleCursor::new(2, 3);
    let mut seen = Vec::new();
    for _ in 0..8 {
        seen.push(c.step());
    }
    assert_eq!(
        seen,
        vec![
            (true, 0, 0),
            (false, 1, 0),
            (false, 0, 1),
            (false, 1, 1),
            (false, 0, 2),
            (false, 1, 2),
            (true, 0, 0),
            (false, 1, 0),
        ]
    );
}

#[test]
fn cursor_position_formula() {
    let channels = 4;
    let frames = 5;
    let mut c = SampleCursor::new(channels, frames);
    for n in 0..100usize {
        assert_eq!(c.channel_index(), n % channels);
        assert_eq!(c.sample_index(), (n / channels) % frames);
        assert_eq!(c.at_buffer_start(), n % (channels * frames) == 0);
        c.advance();
    }
}

#[test]
fn cursor_single_channel_single_frame_renders_every_sample() {
    let mut c = SampleCursor::new(1, 1);
    for _ in 0..5 {
        assert_eq!(c.step(), (true, 0, 0));
    }
    assert_eq!(c.num_channels(), 1);
    assert_eq!(c.buffer_size(), 1);
}

#[test]
fn cursor_default_shape() {
    let mut c = SampleCursor::new(2, 512);
    let mut renders = 0;
    for _ in 0..(2 * 512 * 3) {
        if c.step().0 {
            renders += 1;
        }
    }
    assert_eq!(renders, 3);
}

#[test]
fn render_comes_within_one_buffer_from_any_position() {
    let (channels, frames) = (3, 4);
    let period = channels * frames;
    for start in 0..period {
        let mut c = SampleCursor::new(channels, frames);
        for _ in 0..start {
            c.advance();
        }
        let wait = (period - start) % period;
        for j in 0..period {
            let (render, _, _) = c.step();
            assert_eq!(render, j == wait);
        }
    }
}
