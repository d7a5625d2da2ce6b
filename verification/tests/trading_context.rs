use mmb::time::DateTime;
use mmb::trading_context::{calculate_trading_context, start_explanation, DispositionStrategy, Explanation};

struct RecordingStrategy {
    seen: Vec<String>,
}

impl DispositionStrategy for RecordingStrategy {
    type LocalSnapshotsService = u32;
    type TradingContext = (i64, u32);

    fn calculate_trading_context(
        &mut self,
        now: DateTime,
        local_snapshots_service: &u32,
        explanation: &mut Explanation,
    ) -> Option<(i64, u32)> {
        self.seen = explanation.reasons().clone();
        explanation.add_reason("decided".to_string());
        Some((now.secs, *local_snapshots_service))
    }
}

#[test]
fn strategy_gets_start_reason() {
    let mut strategy = RecordingStrategy { seen: vec![] };
    let now = DateTime { secs: 1_431_648_000, nanos: 0 };
    let context = calculate_trading_context(&mut strategy, &7, now);
    assert_eq!(context, Some((1_431_648_000, 7)));
    assert_eq!(strategy.seen, vec!["Start time utc=Fri, 15 May 2015 00:00:00 +0000".to_string()]);
}

#[test]
fn start_explanation_holds_time() {
    let explanation = start_explanation(DateTime { secs: 0, nanos: 0 });
    assert_eq!(explanation.reasons(), &vec!["Start time utc=Thu, 1 Jan 1970 00:00:00 +0000".to_string()]);
}

#[test]
fn explanation_keeps_reason_order() {
    let mut explanation = Explanation::new();
    explanation.add_reason("first".to_string());
    explanation.add_reason("second".to_string());
    assert_eq!(explanation.reasons(), &vec!["first".to_string(), "second".to_string()]);
}
