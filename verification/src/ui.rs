//! The dashboard shell served to browsers: one HTML page, one stylesheet and
//! one script, all fixed strings. The serving layer hands them out verbatim.

use vstd::prelude::*;

verus! {

/// Readiness probe for the dashboard bundle.
pub fn module_ready() -> (r: bool)
    ensures
        r,
{
    true
}

/// The dashboard page: feed health, settings, forecast, equity and log panels.
pub fn index_html() -> &'static str {
    "<!doctype html>\n<html lang=\"en\">\n<head>\n<meta charset=\"utf-8\">\n<title>Paper Live Lab</title>\n<link rel=\"stylesheet\" href=\"/static/styles.css\">\n</head>\n<body>\n<header>\n  <h1>Paper Live Lab</h1>\n  <ul id=\"kpis\">\n    <li>Balance <span id=\"kpi-balance\"></span></li>\n    <li>Total P&amp;L <span id=\"kpi-pnl\"></span></li>\n    <li>Exec Latency <span id=\"kpi-latency\"></span></li>\n    <li>Win Rate <span id=\"kpi-win-rate\"></span></li>\n    <li>BTC/USD <span id=\"kpi-btc-usd\"></span></li>\n  </ul>\n</header>\n<main>\n  <section id=\"feed-health\"><h2>Feed Health</h2><div id=\"feed-health-body\"></div></section>\n  <section id=\"settings\"><h2>Strategy Settings</h2><form id=\"settings-form\"></form></section>\n  <section id=\"forecast\"><h2>BTC 15m Forecast</h2><div id=\"forecast-body\"></div></section>\n  <section id=\"equity\"><h2>Equity Curve</h2><canvas id=\"equity-chart\"></canvas></section>\n  <section id=\"logs\"><h2>Execution Logs</h2><ol id=\"execution-logs\"></ol></section>\n</main>\n<script src=\"/static/app.js\"></script>\n</body>\n</html>\n"
}

/// The dashboard stylesheet.
pub fn styles_css() -> &'static str {
    "body { font-family: sans-serif; margin: 0; background: #10141a; color: #e6e8eb; }\nheader { padding: 0.5rem 1rem; border-bottom: 1px solid #2a2f38; }\n#kpis { display: flex; gap: 1.5rem; list-style: none; padding: 0; }\nmain { display: grid; grid-template-columns: 1fr 1fr; gap: 1rem; padding: 1rem; }\nsection { background: #171c24; border-radius: 6px; padding: 0.75rem; }\n#equity-chart { width: 100%; height: 180px; }\n#execution-logs { max-height: 240px; overflow-y: auto; }\n"
}

/// The dashboard script: polls the feed, price, settings and strategy
/// endpoints and routes pushed telemetry into the panels.
pub fn app_js() -> &'static str {
    "'use strict';\nconst fetchFeedHealthIntervalMs = 5000;\n\nfunction renderFeedHealth(payload) {\n  const counts = payload.source_counts || [];\n  const top = counts.slice().sort((a, b) => b.count - a.count)[0];\n  const label = top ? 'top source ' + top.source : 'no sources yet';\n  document.getElementById('feed-health-body').textContent = payload.mode + ' | ' + label;\n}\n\nconst equityPoints = [];\nfunction renderEquityChart() {\n  const canvas = document.getElementById('equity-chart');\n  const ctx = canvas.getContext('2d');\n  ctx.clearRect(0, 0, canvas.width, canvas.height);\n  equityPoints.forEach((p, i) => ctx.lineTo(i, canvas.height - p / 1000));\n  ctx.stroke();\n}\n\nasync function pollFeedHealth() {\n  const res = await fetch('/feed/health');\n  renderFeedHealth(await res.json());\n}\n\nasync function pollPortfolio() {\n  const res = await fetch('/portfolio/summary');\n  const summary = await res.json();\n  equityPoints.push(summary.equity);\n  renderEquityChart();\n}\n\nasync function pollPrices() {\n  const res = await fetch('/prices/snapshot');\n  routeEvent({ event_type: 'price_snapshot', ...await res.json() });\n}\n\nasync function pollStrategyStats() {\n  const res = await fetch('/strategy/stats');\n  routeEvent({ event_type: 'strategy_stats', ...await res.json() });\n}\n\nasync function pollForecast() {\n  const res = await fetch('/forecast/btc-15m');\n  routeEvent({ event_type: 'btc_forecast', ...await res.json() });\n}\n\nasync function patchSettings(patch) {\n  const res = await fetch('/settings', {\n    method: 'PATCH',\n    headers: { 'content-type': 'application/json' },\n    body: JSON.stringify(patch),\n  });\n  routeEvent({ event_type: 'settings_updated', ...await res.json() });\n}\n\nfunction routeEvent(message) {\n  switch (message.event_type) {\n    case 'price_snapshot':\n      document.getElementById('kpi-btc-usd').textContent = message.coinbase_btc_usd;\n      break;\n    case 'settings_updated':\n      document.getElementById('settings-form').dataset.mode = message.execution_mode;\n      break;\n    case 'strategy_stats':\n      document.getElementById('kpi-balance').textContent = message.balance;\n      document.getElementById('kpi-pnl').textContent = message.total_pnl;\n      document.getElementById('kpi-latency').textContent = message.exec_latency_us;\n      document.getElementById('kpi-win-rate').textContent = message.win_rate;\n      break;\n    case 'btc_forecast':\n      document.getElementById('forecast-body').textContent = message.forecast_btc_usd;\n      break;\n    case 'execution_log': {\n      const item = document.createElement('li');\n      item.textContent = message.headline + ' ' + message.detail;\n      document.getElementById('execution-logs').prepend(item);\n      break;\n    }\n  }\n}\n\nwindow.setInterval(pollFeedHealth, fetchFeedHealthIntervalMs);\nwindow.setInterval(pollPortfolio, fetchFeedHealthIntervalMs);\nwindow.setInterval(pollPrices, fetchFeedHealthIntervalMs);\nwindow.setInterval(pollStrategyStats, fetchFeedHealthIntervalMs);\nwindow.setInterval(pollForecast, fetchFeedHealthIntervalMs);\nwindow.patchSettings = patchSettings;\n"
}

} // verus!
