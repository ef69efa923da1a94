use fetcher::style::{ProgressBarOpts, StyleOptions};
use indicatif::{ProgressBar, ProgressDrawTarget, TermLike};
use std::sync::{Arc, Mutex};

#[derive(Debug)]
struct Screen(Arc<Mutex<String>>);

impl Screen {
    fn put(&self, text: &str) -> std::io::Result<()> {
        self.0.lock().unwrap().push_str(text);
        Ok(())
    }
}

impl TermLike for Screen {
    fn width(&self) -> u16 {
        80
    }
    fn move_cursor_up(&self, _n: usize) -> std::io::Result<()> {
        Ok(())
    }
    fn move_cursor_down(&self, _n: usize) -> std::io::Result<()> {
        Ok(())
    }
    fn move_cursor_right(&self, _n: usize) -> std::io::Result<()> {
        Ok(())
    }
    fn move_cursor_left(&self, _n: usize) -> std::io::Result<()> {
        Ok(())
    }
    fn write_line(&self, s: &str) -> std::io::Result<()> {
        self.put(s)
    }
    fn write_str(&self, s: &str) -> std::io::Result<()> {
        self.put(s)
    }
    fn clear_line(&self) -> std::io::Result<()> {
        Ok(())
    }
    fn flush(&self) -> std::io::Result<()> {
        Ok(())
    }
}

fn drawn(bar: &ProgressBar, position: u64) -> String {
    let text = Arc::new(Mutex::new(String::new()));
    bar.set_draw_target(ProgressDrawTarget::term_like(Box::new(Screen(text.clone()))));
    bar.set_position(position);
    text.lock().unwrap().clear();
    bar.abandon();
    let result = text.lock().unwrap().clone();
    result
}

fn opts(template: Option<&str>, chars: Option<&str>, enabled: bool) -> ProgressBarOpts {
    let text = |t: &str| t.to_string();
    ProgressBarOpts::new(template.map(text), chars.map(text), enabled, true)
}

#[test]
fn bar_is_drawn_with_its_settings() {
    let bar = opts(Some("<{bar:4}> {pos} of {len}"), Some("#."), true).try_progress_bar(8).unwrap();
    assert_eq!(bar.length(), Some(8));
    assert_eq!(bar.position(), 0);
    assert_eq!(drawn(&bar, 8).trim_end(), "<####> 8 of 8");
    let bar = opts(Some("<{bar:4}>"), Some("#."), true).to_progress_bar(8);
    assert_eq!(drawn(&bar, 0).trim_end(), "<....>");
    let bar = opts(Some("{bar:2}"), None, true).try_progress_bar(1).unwrap();
    assert_eq!(drawn(&bar, 1).trim_end(), "██");
    let bar = opts(None, Some("#."), true).try_progress_bar(5).unwrap();
    assert!(drawn(&bar, 5).contains("### 5/5"));
}

#[test]
fn hidden_bar_has_no_length() {
    let bar = ProgressBarOpts::hidden().try_progress_bar(5).unwrap();
    assert_eq!(bar.length(), None);
    assert_eq!(bar.position(), 0);
    assert!(bar.is_hidden());
    let bar = opts(Some("a}b"), Some("x"), false).to_progress_bar(5);
    assert_eq!(bar.length(), None);
}

#[test]
fn style_has_its_template() {
    let style = opts(Some("{len} items"), None, true).try_progress_style().unwrap();
    let bar = ProgressBar::new(3).with_style(style);
    assert_eq!(drawn(&bar, 1).trim_end(), "3 items");
    let style = opts(Some("{bar:3}"), Some("xy"), true).to_progress_style();
    let bar = ProgressBar::new(3).with_style(style);
    assert_eq!(drawn(&bar, 3).trim_end(), "xxx");
}

#[test]
fn settings_without_a_style_are_told() {
    assert!(opts(Some("a}b"), None, true).try_progress_style().is_none());
    assert!(opts(Some("{bar:99999}"), None, true).try_progress_style().is_none());
    assert!(opts(Some("{bar:<6!5536}"), None, true).try_progress_bar(1).is_none());
    assert!(opts(Some("{bar:65535}"), None, true).can_style());
    assert!(opts(Some("no width: 99999"), None, true).can_style());
    assert!(opts(None, Some("a"), true).try_progress_style().is_none());
    assert!(opts(None, Some(""), true).try_progress_bar(1).is_none());
    assert!(opts(None, Some("a世"), true).try_progress_style().is_none());
    assert!(opts(None, Some("世界"), true).can_style());
}

#[test]
fn only_widths_of_placeholders_count() {
    let fits = |text: &str| opts(Some(text), None, true).can_style();
    assert!(fits("1:70000"));
    assert!(fits("1:70000.5"));
    assert!(fits("{{a:70000}}"));
    assert!(fits("{pos:.a:70000} {len:.red/b:70000}"));
    assert!(fits("{pos:>00000065535}"));
    assert!(fits("{pos:70000"));
    assert!(fits("{a 1:70000."));
    assert!(!fits("{pos:65536}"));
    assert!(!fits("{pos:^!65536.red}"));
    assert!(!fits("{{{pos:70000}"));
    assert!(!fits("{a\n{pos:99999999999999999999}"));
    assert!(!fits("{:70000}"));
    let bar = opts(Some("1:70000 {pos}"), None, true).try_progress_bar(9).unwrap();
    assert_eq!(drawn(&bar, 4).trim_end(), "1:70000 4");
}

#[test]
fn given_styles_are_styles() {
    assert!(ProgressBarOpts::with_pip_style().can_style());
    assert!(ProgressBarOpts::default().can_style());
    let options = StyleOptions::default();
    assert!(options.main().can_style());
    assert!(options.child().can_style());
    assert!(!options.main().clears());
    assert!(options.child().clears());
    let bar = options.main().clone().to_progress_bar(4);
    assert!(drawn(&bar, 4).contains("4/4 (100%)"));
}

#[test]
fn bars_are_set_and_shown() {
    let mut options = StyleOptions::new(ProgressBarOpts::hidden(), ProgressBarOpts::hidden());
    assert!(!options.is_enabled());
    options.set_child(ProgressBarOpts::with_pip_style());
    assert!(options.is_enabled());
    options.set_child(ProgressBarOpts::hidden());
    options.set_main(ProgressBarOpts::default());
    assert!(options.is_enabled());
    let mut bar = ProgressBarOpts::hidden();
    assert!(bar.clears());
    bar.set_clear(false);
    assert!(!bar.clears());
}
