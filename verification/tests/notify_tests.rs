use std::sync::Mutex;

use myr::notify::Notifier;

/// A notifier that remembers what it was asked to show.
struct RecordingNotifier {
    shown: Mutex<Vec<(String, String, bool)>>,
}

impl Notifier for RecordingNotifier {
    fn notify(&self, summary: &str, body: &str) -> Result<(), String> {
        self.shown.lock().unwrap().push((summary.to_string(), body.to_string(), false));
        Ok(())
    }

    fn error(&self, summary: &str, body: &str) -> Result<(), String> {
        self.shown.lock().unwrap().push((summary.to_string(), body.to_string(), true));
        Ok(())
    }
}

#[test]
fn test_mock_notifier() {
    let mock = RecordingNotifier { shown: Mutex::new(Vec::new()) };

    mock.notify("test", "body").unwrap();
    let shown = mock.shown.lock().unwrap();
    assert_eq!(shown.len(), 1);
    assert_eq!(shown[0], ("test".to_string(), "body".to_string(), false));
}
