//! The dashboard that the endpoint serves beside the report: one page, its
//! script and its style sheet.

use vstd::prelude::*;

verus! {

/// The dashboard page.
pub const HTML: &'static str = "<!DOCTYPE html>
<html>
<head>
<meta charset=\"utf-8\">
<title>Self Meter</title>
<link rel=\"stylesheet\" href=\"main.css\">
</head>
<body>
<h1>Self Meter</h1>
<table id=\"process\"></table>
<h2>Threads</h2>
<table id=\"threads\"></table>
<script src=\"bundle.js\"></script>
</body>
</html>
";

/// The script of the dashboard: it fetches the report once a second and
/// fills the two tables.
pub const BUNDLE: &'static str = "(function () {
  function cell(row, text) {
    var td = document.createElement('td');
    td.textContent = String(text);
    row.appendChild(td);
  }
  function fill(id, rows) {
    var table = document.getElementById(id);
    while (table.firstChild) {
      table.removeChild(table.firstChild);
    }
    rows.forEach(function (pair) {
      var row = document.createElement('tr');
      cell(row, pair[0]);
      cell(row, pair[1]);
      table.appendChild(row);
    });
  }
  function pairs(object) {
    return Object.keys(object || {}).sort().map(function (key) {
      return [key, object[key]];
    });
  }
  function show(report) {
    fill('process', pairs(report.process));
    fill('threads', pairs(report.threads).map(function (pair) {
      return [pair[0], pair[1].cpu_usage.toFixed(1) + '%'];
    }));
  }
  function refresh() {
    var request = new XMLHttpRequest();
    request.onload = function () {
      show(JSON.parse(request.responseText));
    };
    request.open('GET', 'status.json');
    request.send();
  }
  refresh();
  setInterval(refresh, 1000);
})();
";

/// The style sheet of the dashboard.
pub const CSS: &'static str = "body {
  font-family: sans-serif;
  margin: 2em;
}
table {
  border-collapse: collapse;
}
td {
  border: 1px solid #ccc;
  padding: 0.2em 0.6em;
}
";

} // verus!
